//! The set-pool workflow's pure part: worker-name expansion and the three
//! pool endpoints built from a stored template.
//!
//! A worker-name template may hold the placeholders `{can}`, `{model}` and
//! `{ip}`. They are substituted in that order: the container number in
//! decimal, the device model folded to lower case and truncated at its first
//! hyphen, and the last two dot-separated octets of the device address
//! joined by an `x` (so `10.20.3.4` gives `3x4`). The same expanded worker
//! name is applied to all three configured endpoints.

use vstd::prelude::*;

use crate::config::Pool;
use crate::text::{
    ascii_lower, clone_bytes, dec_seq_i64, find_byte, i64_to_dec, lower_seq, prefix_before,
    replace_all, replace_all_seq, rfind, rfind_byte, sub_bytes,
};

verus! {

/// The placeholder `{can}`.
pub open spec fn can_pat() -> Seq<u8> {
    seq![123u8, 99u8, 97u8, 110u8, 125u8]
}

/// The placeholder `{model}`.
pub open spec fn model_pat() -> Seq<u8> {
    seq![123u8, 109u8, 111u8, 100u8, 101u8, 108u8, 125u8]
}

/// The placeholder `{ip}`.
pub open spec fn ip_pat() -> Seq<u8> {
    seq![123u8, 105u8, 112u8, 125u8]
}

/// A model string's substitution form: lower case, truncated at the first
/// hyphen (`S19-88` gives `s19`).
pub open spec fn model_slug_seq(model: Seq<u8>) -> Seq<u8> {
    lower_seq(model.subrange(0, find_byte(model, 45)))
}

/// An address's substitution form: the last two dot-separated parts joined
/// by an `x`. Defined for addresses holding at least one dot.
pub open spec fn ip_tail_seq(ip: Seq<u8>) -> Seq<u8> {
    let j = rfind_byte(ip, 46);
    let st = rfind_byte(ip.subrange(0, j), 46) + 1;
    ip.subrange(st, j) + seq![120u8] + ip.skip(j + 1)
}

/// A worker-name template with all three placeholders substituted.
pub open spec fn expand_worker_seq(t: Seq<u8>, can: int, model: Seq<u8>, ip: Seq<u8>) -> Seq<u8> {
    let t1 = replace_all_seq(t, can_pat(), dec_seq_i64(can));
    let t2 = replace_all_seq(t1, model_pat(), model_slug_seq(model));
    replace_all_seq(t2, ip_pat(), ip_tail_seq(ip))
}

fn can_pat_vec() -> (v: Vec<u8>)
    ensures
        v@ == can_pat(),
{
    let mut v: Vec<u8> = Vec::new();
    v.push(123);
    v.push(99);
    v.push(97);
    v.push(110);
    v.push(125);
    assert(v@ =~= can_pat());
    v
}

fn model_pat_vec() -> (v: Vec<u8>)
    ensures
        v@ == model_pat(),
{
    let mut v: Vec<u8> = Vec::new();
    v.push(123);
    v.push(109);
    v.push(111);
    v.push(100);
    v.push(101);
    v.push(108);
    v.push(125);
    assert(v@ =~= model_pat());
    v
}

fn ip_pat_vec() -> (v: Vec<u8>)
    ensures
        v@ == ip_pat(),
{
    let mut v: Vec<u8> = Vec::new();
    v.push(123);
    v.push(105);
    v.push(112);
    v.push(125);
    assert(v@ =~= ip_pat());
    v
}

/// The model's substitution form: lower case, truncated at the first hyphen.
pub fn model_slug(model: &Vec<u8>) -> (out: Vec<u8>)
    ensures
        out@ == model_slug_seq(model@),
{
    let head = prefix_before(model, 45);
    ascii_lower(&head)
}

/// The address's substitution form: its last two dot-separated parts joined
/// by an `x`.
pub fn ip_tail(ip: &Vec<u8>) -> (out: Vec<u8>)
    requires
        rfind_byte(ip@, 46) >= 0,
    ensures
        out@ == ip_tail_seq(ip@),
{
    proof {
        crate::text::lemma_rfind_byte(ip@, 46);
    }
    let j = rfind(ip, 46);
    let head = sub_bytes(ip, 0, j);
    proof {
        crate::text::lemma_rfind_byte(head@, 46);
    }
    let r = rfind(&head, 46);
    let st = if r == head.len() {
        0
    } else {
        r + 1
    };
    assert(st == rfind_byte(ip@.subrange(0, rfind_byte(ip@, 46)), 46) + 1);
    let mut out = sub_bytes(ip, st, j);
    out.push(120);
    let n = ip.len();
    assert(j < n);
    let tail = sub_bytes(ip, j + 1, n);
    let mut k: usize = 0;
    let tn = tail.len();
    let ghost mid = out@;
    while k < tn
        invariant
            tn == tail@.len(),
            k <= tn,
            out@ == mid + tail@.subrange(0, k as int),
        decreases tn - k,
    {
        let b = tail[k];
        out.push(b);
        assert(out@ =~= mid + tail@.subrange(0, k + 1));
        k = k + 1;
    }
    proof {
        assert(tail@.subrange(0, tail@.len() as int) =~= tail@);
        let jj = rfind_byte(ip@, 46);
        assert(mid =~= ip@.subrange(st as int, jj) + seq![120u8]);
        assert(ip@.subrange(jj + 1, ip@.len() as int) =~= ip@.skip(jj + 1));
        assert(out@ =~= ip_tail_seq(ip@));
    }
    out
}

/// The worker-name template expanded for one device: `{can}` to the
/// container number, `{model}` to the model's substitution form, `{ip}` to
/// the address's. The address must hold at least one dot.
pub fn expand_worker(template: &Vec<u8>, can: i64, model: &Vec<u8>, ip: &Vec<u8>) -> (out: Vec<
    u8,
>)
    requires
        rfind_byte(ip@, 46) >= 0,
    ensures
        out@ == expand_worker_seq(template@, can as int, model@, ip@),
{
    let cp = can_pat_vec();
    let mp = model_pat_vec();
    let ipp = ip_pat_vec();
    let canv = i64_to_dec(can);
    let slug = model_slug(model);
    let tail = ip_tail(ip);
    let t1 = replace_all(template, &cp, &canv);
    let t2 = replace_all(&t1, &mp, &slug);
    replace_all(&t2, &ipp, &tail)
}

/// `expand_worker` behind a run-time check of the address's shape: `None`
/// exactly when the address holds no dot.
pub fn expand_worker_checked(template: &Vec<u8>, can: i64, model: &Vec<u8>, ip: &Vec<u8>) -> (out:
    Option<Vec<u8>>)
    ensures
        match out {
            Some(w) => rfind_byte(ip@, 46) >= 0 && w@ == expand_worker_seq(
                template@,
                can as int,
                model@,
                ip@,
            ),
            None => rfind_byte(ip@, 46) < 0,
        },
{
    proof {
        crate::text::lemma_rfind_byte(ip@, 46);
    }
    let r = rfind(ip, 46);
    if r == ip.len() {
        proof {
            if rfind_byte(ip@, 46) >= 0 {
                assert(rfind_byte(ip@, 46) < ip@.len());
            }
        }
        None
    } else {
        Some(expand_worker(template, can, model, ip))
    }
}

/// One configured pool endpoint as handed to a device: a URL, the expanded
/// worker name, and the stored password.
pub struct PoolEndpoint {
    pub url: Vec<u8>,
    pub worker: Vec<u8>,
    pub password: Option<Vec<u8>>,
}

impl PoolEndpoint {
    /// An empty placeholder endpoint.
    pub fn placeholder() -> (e: PoolEndpoint)
        ensures
            e.url@.len() == 0,
            e.worker@.len() == 0,
            e.password is None,
    {
        PoolEndpoint { url: Vec::new(), worker: Vec::new(), password: None }
    }
}

/// The three endpoints sent in one set-pool command: the template's three
/// URLs in order, every endpoint carrying the same worker name and the
/// template's password.
pub fn build_endpoints(tpl: &Pool, worker: &Vec<u8>) -> (eps: Vec<PoolEndpoint>)
    ensures
        eps@.len() == 3,
        eps@[0].url@ == tpl.url1@,
        eps@[1].url@ == tpl.url2@,
        eps@[2].url@ == tpl.url3@,
        forall|i: int|
            0 <= i < 3 ==> (#[trigger] eps@[i]).worker@ == worker@ && match (
            eps@[i].password,
            tpl.password,
            ) {
                (Some(a), Some(b)) => a@ == b@,
                (None, None) => true,
                _ => false,
            },
{
    let mut eps: Vec<PoolEndpoint> = Vec::new();
    eps.push(
        PoolEndpoint {
            url: clone_bytes(&tpl.url1),
            worker: clone_bytes(worker),
            password: clone_password(&tpl.password),
        },
    );
    eps.push(
        PoolEndpoint {
            url: clone_bytes(&tpl.url2),
            worker: clone_bytes(worker),
            password: clone_password(&tpl.password),
        },
    );
    eps.push(
        PoolEndpoint {
            url: clone_bytes(&tpl.url3),
            worker: clone_bytes(worker),
            password: clone_password(&tpl.password),
        },
    );
    eps
}

/// A copy of an optional password.
pub fn clone_password(p: &Option<Vec<u8>>) -> (out: Option<Vec<u8>>)
    ensures
        match (out, p) {
            (Some(a), Some(b)) => a@ == b@,
            (None, None) => true,
            _ => false,
        },
{
    match p {
        Some(v) => Some(clone_bytes(v)),
        None => None,
    }
}

} // verus!
