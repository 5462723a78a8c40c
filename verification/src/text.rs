//! Byte-string helpers for the worker-name and error-message rules.
//!
//! All text the fleet logic inspects (templates, model names, addresses,
//! error codes) is carried as bytes, so every rule here has an exact
//! specification over `Seq<u8>`.

use vstd::prelude::*;

verus! {

/// The pattern `p` occurs in `s` at offset `i`.
pub open spec fn matches_at(s: Seq<u8>, p: Seq<u8>, i: int) -> bool {
    0 <= i && i + p.len() <= s.len() && s.subrange(i, i + p.len()) == p
}

/// `s` contains `p` somewhere.
pub open spec fn contains_seq(s: Seq<u8>, p: Seq<u8>) -> bool {
    exists|i: int| matches_at(s, p, i)
}

/// Every occurrence of the non-empty pattern `p` replaced by `r`, scanning
/// left to right and never rescanning replaced text.
pub open spec fn replace_all_seq(s: Seq<u8>, p: Seq<u8>, r: Seq<u8>) -> Seq<u8>
    decreases s.len(),
{
    if s.len() == 0 || p.len() == 0 {
        s
    } else if matches_at(s, p, 0) {
        r + replace_all_seq(s.skip(p.len() as int), p, r)
    } else {
        seq![s[0]] + replace_all_seq(s.skip(1), p, r)
    }
}

/// Whether `p` occurs in `s` starting at offset `i`.
pub fn matches_from(s: &Vec<u8>, p: &Vec<u8>, i: usize) -> (b: bool)
    requires
        i <= s@.len(),
    ensures
        b == matches_at(s@, p@, i as int),
{
    if s.len() - i < p.len() {
        assert(!matches_at(s@, p@, i as int));
        return false;
    }
    let mut k: usize = 0;
    while k < p.len()
        invariant
            i + p@.len() <= s@.len(),
            s@.len() <= usize::MAX,
            k <= p@.len(),
            forall|j: int| 0 <= j < k ==> s@[i + j] == p@[j],
        decreases p@.len() - k,
    {
        if s[i + k] != p[k] {
            assert(s@.subrange(i as int, i + p@.len())[k as int] != p@[k as int]);
            return false;
        }
        k = k + 1;
    }
    assert(s@.subrange(i as int, i + p@.len()) =~= p@);
    true
}

/// Whether `s` contains the pattern `p`.
pub fn contains_bytes(s: &Vec<u8>, p: &Vec<u8>) -> (b: bool)
    ensures
        b == contains_seq(s@, p@),
{
    if p.len() == 0 {
        assert(s@.subrange(0, 0) =~= p@);
        assert(matches_at(s@, p@, 0));
        return true;
    }
    if p.len() > s.len() {
        assert(forall|j: int| !matches_at(s@, p@, j));
        return false;
    }
    let bound = s.len() - p.len();
    let mut i: usize = 0;
    while i <= bound
        invariant
            p@.len() >= 1,
            bound + p@.len() == s@.len(),
            s@.len() <= usize::MAX,
            i <= bound + 1,
            forall|j: int| 0 <= j < i ==> !matches_at(s@, p@, j),
        decreases bound + 1 - i,
    {
        if matches_from(s, p, i) {
            return true;
        }
        i = i + 1;
    }
    assert(forall|j: int| matches_at(s@, p@, j) ==> 0 <= j <= bound);
    false
}

/// Whether two byte strings hold the same bytes.
pub fn bytes_eq(a: &Vec<u8>, b: &Vec<u8>) -> (r: bool)
    ensures
        r == (a@ == b@),
{
    if a.len() != b.len() {
        return false;
    }
    let mut i: usize = 0;
    while i < a.len()
        invariant
            a@.len() == b@.len(),
            i <= a@.len(),
            forall|j: int| 0 <= j < i ==> a@[j] == b@[j],
        decreases a@.len() - i,
    {
        if a[i] != b[i] {
            return false;
        }
        i = i + 1;
    }
    assert(a@ =~= b@);
    true
}

/// Every occurrence of `p` in `s` replaced by `r`.
pub fn replace_all(s: &Vec<u8>, p: &Vec<u8>, r: &Vec<u8>) -> (out: Vec<u8>)
    requires
        p@.len() > 0,
    ensures
        out@ == replace_all_seq(s@, p@, r@),
{
    let mut out: Vec<u8> = Vec::new();
    let mut i: usize = 0;
    let n = s.len();
    proof {
        assert(s@.skip(0) =~= s@);
        assert(Seq::<u8>::empty() + replace_all_seq(s@, p@, r@) =~= replace_all_seq(s@, p@, r@));
    }
    while i < n
        invariant
            i <= s@.len(),
            n == s@.len(),
            p@.len() > 0,
            out@ + replace_all_seq(s@.skip(i as int), p@, r@) == replace_all_seq(s@, p@, r@),
        decreases s@.len() - i,
    {
        let ghost pre = out@;
        let ghost i0 = i as int;
        let ghost rest = s@.skip(i0);
        if matches_from(s, p, i) {
            proof {
                assert(rest.subrange(0, p@.len() as int) =~= s@.subrange(i0, i0 + p@.len()));
                assert(matches_at(rest, p@, 0));
            }
            let mut k: usize = 0;
            while k < r.len()
                invariant
                    k <= r@.len(),
                    out@ == pre + r@.subrange(0, k as int),
                decreases r@.len() - k,
            {
                let b = r[k];
                out.push(b);
                assert(out@ =~= pre + r@.subrange(0, k + 1));
                k = k + 1;
            }
            assert(out@ =~= pre + r@);
            i = i + p.len();
            proof {
                assert(rest.skip(p@.len() as int) =~= s@.skip(i as int));
                assert(replace_all_seq(rest, p@, r@) == r@ + replace_all_seq(
                    s@.skip(i as int),
                    p@,
                    r@,
                ));
                assert(out@ + replace_all_seq(s@.skip(i as int), p@, r@) =~= pre
                    + replace_all_seq(rest, p@, r@));
            }
        } else {
            let b = s[i];
            out.push(b);
            i = i + 1;
            proof {
                if matches_at(rest, p@, 0) {
                    assert(rest.subrange(0, p@.len() as int) =~= s@.subrange(i0, i0 + p@.len()));
                }
                assert(!matches_at(rest, p@, 0));
                assert(rest.skip(1) =~= s@.skip(i as int));
                assert(rest[0] == s@[i0]);
                assert(replace_all_seq(rest, p@, r@) == seq![s@[i0]] + replace_all_seq(
                    s@.skip(i as int),
                    p@,
                    r@,
                ));
                assert(out@ =~= pre + seq![s@[i0]]);
                assert(out@ + replace_all_seq(s@.skip(i as int), p@, r@) =~= pre
                    + replace_all_seq(rest, p@, r@));
            }
        }
    }
    proof {
        assert(s@.skip(s@.len() as int) =~= Seq::<u8>::empty());
        assert(out@ + Seq::<u8>::empty() =~= out@);
    }
    out
}

/// A copy of a byte string.
pub fn clone_bytes(v: &Vec<u8>) -> (out: Vec<u8>)
    ensures
        out@ == v@,
{
    let mut out: Vec<u8> = Vec::new();
    let n = v.len();
    let mut i: usize = 0;
    while i < n
        invariant
            n == v@.len(),
            i <= n,
            out@ == v@.subrange(0, i as int),
        decreases n - i,
    {
        let b = v[i];
        out.push(b);
        assert(out@ =~= v@.subrange(0, i + 1));
        i = i + 1;
    }
    assert(v@.subrange(0, v@.len() as int) =~= v@);
    out
}

/// The bytes of `s` from `a` (inclusive) to `b` (exclusive).
pub fn sub_bytes(s: &Vec<u8>, a: usize, b: usize) -> (out: Vec<u8>)
    requires
        a <= b <= s@.len(),
    ensures
        out@ == s@.subrange(a as int, b as int),
{
    let mut out: Vec<u8> = Vec::new();
    let mut i: usize = a;
    while i < b
        invariant
            a <= i <= b <= s@.len(),
            out@ == s@.subrange(a as int, i as int),
        decreases b - i,
    {
        let x = s[i];
        out.push(x);
        assert(out@ =~= s@.subrange(a as int, i + 1));
        i = i + 1;
    }
    out
}

/// One byte folded to ASCII lower case.
pub open spec fn lower_byte(b: u8) -> u8 {
    if 65 <= b <= 90 {
        (b + 32) as u8
    } else {
        b
    }
}

/// A byte string folded to ASCII lower case.
pub open spec fn lower_seq(s: Seq<u8>) -> Seq<u8> {
    Seq::new(s.len(), |i: int| lower_byte(s[i]))
}

/// `s` folded to ASCII lower case.
pub fn ascii_lower(s: &Vec<u8>) -> (out: Vec<u8>)
    ensures
        out@ == lower_seq(s@),
{
    let mut out: Vec<u8> = Vec::new();
    let mut i: usize = 0;
    let n = s.len();
    while i < n
        invariant
            i <= s@.len(),
            n == s@.len(),
            out@.len() == i,
            forall|j: int| 0 <= j < i ==> out@[j] == lower_byte(s@[j]),
        decreases n - i,
    {
        let b = s[i];
        if 65 <= b && b <= 90 {
            out.push(b + 32);
        } else {
            out.push(b);
        }
        i = i + 1;
    }
    assert(out@ =~= lower_seq(s@));
    out
}

/// The decimal digits of `n`, most significant first.
pub open spec fn dec_seq(n: nat) -> Seq<u8>
    decreases n,
{
    if n < 10 {
        seq![(48 + n) as u8]
    } else {
        dec_seq(n / 10) + seq![(48 + n % 10) as u8]
    }
}

/// The decimal rendering of `n`, a minus sign first when `n` is negative.
pub open spec fn dec_seq_i64(n: int) -> Seq<u8> {
    if n < 0 {
        seq![45u8] + dec_seq((0 - n) as nat)
    } else {
        dec_seq(n as nat)
    }
}

/// `n` rendered in decimal.
pub fn u64_to_dec(n: u64) -> (out: Vec<u8>)
    ensures
        out@ == dec_seq(n as nat),
    decreases n,
{
    if n < 10 {
        let mut out: Vec<u8> = Vec::new();
        out.push(48 + (n as u8));
        assert(out@ =~= dec_seq(n as nat));
        out
    } else {
        let mut out = u64_to_dec(n / 10);
        out.push(48 + ((n % 10) as u8));
        assert(out@ =~= dec_seq(n as nat));
        out
    }
}

/// `n` rendered in decimal, with a leading minus sign when negative.
pub fn i64_to_dec(n: i64) -> (out: Vec<u8>)
    ensures
        out@ == dec_seq_i64(n as int),
{
    if n >= 0 {
        u64_to_dec(n as u64)
    } else {
        let m: u64 = ((-(n + 1)) as u64) + 1;
        assert(m as nat == (0 - n as int) as nat);
        let digits = u64_to_dec(m);
        let mut out: Vec<u8> = Vec::new();
        out.push(45);
        let mut k: usize = 0;
        let dn = digits.len();
        while k < dn
            invariant
                dn == digits@.len(),
                k <= digits@.len(),
                out@ == seq![45u8] + digits@.subrange(0, k as int),
            decreases dn - k,
        {
            let b = digits[k];
            out.push(b);
            assert(out@ =~= seq![45u8] + digits@.subrange(0, k + 1));
            k = k + 1;
        }
        assert(digits@.subrange(0, digits@.len() as int) =~= digits@);
        out
    }
}

/// The offset of the first byte `c` in `s`, or `s.len()` when none occurs.
pub open spec fn find_byte(s: Seq<u8>, c: u8) -> int
    decreases s.len(),
{
    if s.len() == 0 {
        0
    } else if s[0] == c {
        0
    } else {
        1 + find_byte(s.skip(1), c)
    }
}

/// What `find_byte` returns: the first occurrence, or the length.
pub proof fn lemma_find_byte(s: Seq<u8>, c: u8)
    ensures
        0 <= find_byte(s, c) <= s.len(),
        forall|j: int| 0 <= j < find_byte(s, c) ==> s[j] != c,
        find_byte(s, c) < s.len() ==> s[find_byte(s, c)] == c,
    decreases s.len(),
{
    if s.len() == 0 {
    } else if s[0] == c {
    } else {
        lemma_find_byte(s.skip(1), c);
        assert forall|j: int| 0 <= j < find_byte(s, c) implies s[j] != c by {
            if j > 0 {
                assert(s.skip(1)[j - 1] != c);
            }
        }
    }
}

/// The offset of the last byte `c` in `s`, or `-1` when none occurs.
pub open spec fn rfind_byte(s: Seq<u8>, c: u8) -> int
    decreases s.len(),
{
    if s.len() == 0 {
        -1
    } else if s[s.len() - 1] == c {
        s.len() - 1
    } else {
        rfind_byte(s.drop_last(), c)
    }
}

/// What `rfind_byte` returns: the last occurrence, or `-1`.
pub proof fn lemma_rfind_byte(s: Seq<u8>, c: u8)
    ensures
        -1 <= rfind_byte(s, c) < s.len(),
        forall|j: int| rfind_byte(s, c) < j < s.len() ==> s[j] != c,
        rfind_byte(s, c) >= 0 ==> s[rfind_byte(s, c)] == c,
        rfind_byte(s, c) == -1 ==> forall|j: int| 0 <= j < s.len() ==> s[j] != c,
    decreases s.len(),
{
    if s.len() == 0 {
    } else if s[s.len() - 1] == c {
    } else {
        lemma_rfind_byte(s.drop_last(), c);
        assert forall|j: int| rfind_byte(s, c) < j < s.len() implies s[j] != c by {
            if j < s.len() - 1 {
                assert(s.drop_last()[j] != c);
            }
        }
        if rfind_byte(s, c) == -1 {
            assert forall|j: int| 0 <= j < s.len() implies s[j] != c by {
                if j < s.len() - 1 {
                    assert(s.drop_last()[j] != c);
                }
            }
        }
    }
}

/// The offset of the last byte `c` in `s`, or `s.len()` when none occurs.
pub fn rfind(s: &Vec<u8>, c: u8) -> (r: usize)
    ensures
        rfind_byte(s@, c) >= 0 ==> r == rfind_byte(s@, c),
        rfind_byte(s@, c) < 0 ==> r == s@.len(),
{
    proof {
        lemma_rfind_byte(s@, c);
    }
    let mut i: usize = s.len();
    while i > 0
        invariant
            i <= s@.len(),
            forall|j: int| i <= j < s@.len() ==> s@[j] != c,
        decreases i,
    {
        i = i - 1;
        if s[i] == c {
            proof {
                lemma_rfind_byte(s@, c);
                if rfind_byte(s@, c) < i {
                    assert(s@[i as int] != c);
                }
                if rfind_byte(s@, c) > i {
                    assert(s@[rfind_byte(s@, c)] != c);
                }
            }
            return i;
        }
    }
    proof {
        lemma_rfind_byte(s@, c);
        if rfind_byte(s@, c) >= 0 {
            assert(s@[rfind_byte(s@, c)] != c);
        }
    }
    s.len()
}

/// The prefix of `s` up to (not including) the first byte `c`; all of `s`
/// when `c` does not occur.
pub fn prefix_before(s: &Vec<u8>, c: u8) -> (out: Vec<u8>)
    ensures
        out@ == s@.subrange(0, find_byte(s@, c)),
{
    proof {
        lemma_find_byte(s@, c);
    }
    let n = s.len();
    let mut i: usize = 0;
    let mut out: Vec<u8> = Vec::new();
    while i < n
        invariant
            n == s@.len(),
            i <= s@.len(),
            out@ == s@.subrange(0, i as int),
            forall|j: int| 0 <= j < i ==> s@[j] != c,
        decreases n - i,
    {
        let b = s[i];
        if b == c {
            proof {
                lemma_find_byte(s@, c);
                if find_byte(s@, c) < i {
                    assert(s@[find_byte(s@, c)] == c);
                }
                if find_byte(s@, c) > i {
                    assert(s@[i as int] != c);
                }
            }
            return out;
        }
        out.push(b);
        assert(out@ =~= s@.subrange(0, i + 1));
        i = i + 1;
    }
    proof {
        lemma_find_byte(s@, c);
        if find_byte(s@, c) < s@.len() {
            assert(s@[find_byte(s@, c)] == c);
        }
    }
    out
}

} // verus!

