//! Translation of raw device error codes into human-readable messages.
//!
//! The table is an ordered list of rules keyed by vendor and pattern: the
//! first rule whose vendor applies and whose pattern occurs in the raw code
//! wins. A table is meant to end in a catch-all rule — empty vendor, empty
//! pattern, message `Unknown error` — so that translation never comes up
//! empty; `with_catchall` appends it.

use vstd::prelude::*;

use crate::text::{contains_seq, contains_bytes, bytes_eq};

verus! {

/// One translation rule: for this vendor (empty: any), a code holding this
/// pattern (empty: any code) reads as this message.
pub struct ErrorRule {
    pub make: Vec<u8>,
    pub pattern: Vec<u8>,
    pub message: Vec<u8>,
}

/// The ordered translation table; order decides, first match wins.
pub struct ErrorTable {
    pub rules: Vec<ErrorRule>,
}

/// Whether one rule applies to a vendor and raw code.
pub open spec fn rule_applies(r: ErrorRule, make: Seq<u8>, code: Seq<u8>) -> bool {
    (r.make@.len() == 0 || r.make@ == make) && contains_seq(code, r.pattern@)
}

/// The message of the first applicable rule.
pub open spec fn translate_spec(rules: Seq<ErrorRule>, make: Seq<u8>, code: Seq<u8>) -> Option<
    Seq<u8>,
>
    decreases rules.len(),
{
    if rules.len() == 0 {
        None
    } else if rule_applies(rules[0], make, code) {
        Some(rules[0].message@)
    } else {
        translate_spec(rules.skip(1), make, code)
    }
}

/// Whether a rule applies to every vendor and code: a catch-all.
pub open spec fn is_catchall(r: ErrorRule) -> bool {
    r.make@.len() == 0 && r.pattern@.len() == 0
}

/// The message `Unknown error`, the catch-all's reading.
pub open spec fn unknown_error_message() -> Seq<u8> {
    seq![85u8, 110u8, 107u8, 110u8, 111u8, 119u8, 110u8, 32u8, 101u8, 114u8, 114u8, 111u8, 114u8]
}

impl ErrorTable {
    /// The given rules with the catch-all appended as the final fallback.
    pub fn with_catchall(rules: Vec<ErrorRule>) -> (t: ErrorTable)
        ensures
            t.rules@.len() == rules@.len() + 1,
            t.rules@.subrange(0, rules@.len() as int) == rules@,
            is_catchall(t.rules@.last()),
            t.rules@.last().message@ == unknown_error_message(),
    {
        let mut rules = rules;
        let ghost before = rules@;
        let mut message: Vec<u8> = Vec::new();
        message.push(85);
        message.push(110);
        message.push(107);
        message.push(110);
        message.push(111);
        message.push(119);
        message.push(110);
        message.push(32);
        message.push(101);
        message.push(114);
        message.push(114);
        message.push(111);
        message.push(114);
        assert(message@ =~= unknown_error_message());
        rules.push(ErrorRule { make: Vec::new(), pattern: Vec::new(), message });
        proof {
            assert(rules@.subrange(0, before.len() as int) =~= before);
        }
        ErrorTable { rules }
    }

    /// The reading of one raw code for one vendor: the first applicable
    /// rule's message.
    pub fn translate(&self, make: &Vec<u8>, code: &Vec<u8>) -> (out: Option<Vec<u8>>)
        ensures
            match out {
                Some(m) => translate_spec(self.rules@, make@, code@) == Some(m@),
                None => translate_spec(self.rules@, make@, code@) is None,
            },
    {
        let n = self.rules.len();
        let mut i: usize = 0;
        proof {
            assert(self.rules@.skip(0) =~= self.rules@);
        }
        while i < n
            invariant
                i <= n,
                n == self.rules@.len(),
                translate_spec(self.rules@, make@, code@) == translate_spec(
                    self.rules@.skip(i as int),
                    make@,
                    code@,
                ),
            decreases n - i,
        {
            proof {
                assert(self.rules@.skip(i as int)[0] == self.rules@[i as int]);
                assert(self.rules@.skip(i as int).skip(1) =~= self.rules@.skip(i + 1));
            }
            let r = &self.rules[i];
            let make_ok = r.make.len() == 0 || bytes_eq(&r.make, make);
            if make_ok && contains_bytes(code, &r.pattern) {
                return Some(crate::text::clone_bytes(&r.message));
            }
            i = i + 1;
        }
        proof {
            assert(self.rules@.skip(n as int) =~= Seq::<ErrorRule>::empty());
        }
        None
    }
}

/// A table ending in a catch-all translates every code of every vendor;
/// under the standard table the fallback reading is `Unknown error`.
pub proof fn lemma_catchall_translates(rules: Seq<ErrorRule>, make: Seq<u8>, code: Seq<u8>)
    requires
        rules.len() > 0,
        is_catchall(rules.last()),
    ensures
        translate_spec(rules, make, code) is Some,
    decreases rules.len(),
{
    assert(code.subrange(0, 0) =~= Seq::<u8>::empty());
    if rules.len() == 1 {
        assert(rules[0] == rules.last());
        assert(code.subrange(0, 0) =~= rules[0].pattern@);
        assert(crate::text::matches_at(code, rules[0].pattern@, 0));
    } else {
        if !rule_applies(rules[0], make, code) {
            assert(rules.skip(1).last() == rules.last());
            lemma_catchall_translates(rules.skip(1), make, code);
        }
    }
}

/// When no rule before the final catch-all applies, the reading is exactly
/// the catch-all's message.
pub proof fn lemma_catchall_is_the_fallback(rules: Seq<ErrorRule>, make: Seq<u8>, code: Seq<u8>)
    requires
        rules.len() > 0,
        is_catchall(rules.last()),
        forall|k: int| 0 <= k < rules.len() - 1 ==> !rule_applies(#[trigger] rules[k], make, code),
    ensures
        translate_spec(rules, make, code) == Some(rules.last().message@),
    decreases rules.len(),
{
    assert(code.subrange(0, 0) =~= Seq::<u8>::empty());
    if rules.len() == 1 {
        assert(rules[0] == rules.last());
        assert(code.subrange(0, 0) =~= rules[0].pattern@);
        assert(crate::text::matches_at(code, rules[0].pattern@, 0));
    } else {
        assert(!rule_applies(rules[0], make, code));
        assert(rules.skip(1).last() == rules.last());
        assert forall|k: int| 0 <= k < rules.skip(1).len() - 1 implies !rule_applies(
            #[trigger] rules.skip(1)[k],
            make,
            code,
        ) by {
            assert(rules.skip(1)[k] == rules[k + 1]);
        }
        lemma_catchall_is_the_fallback(rules.skip(1), make, code);
    }
}

} // verus!
