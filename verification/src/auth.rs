//! Credential resolution and the fallback order of authentication.
//!
//! A credential set maps a device vendor to an ordered list of
//! username/password candidates. Authentication tries the candidates
//! strictly in order and stops at the first success; when the list runs out
//! the attempt has failed and no further candidate is handed out. The
//! network call that tries one candidate is the device protocol's; this
//! module decides which candidate to try next and records each outcome.

use vstd::prelude::*;

verus! {

/// One username/password candidate.
pub struct Credential {
    pub username: Vec<u8>,
    pub password: Vec<u8>,
}

/// The candidates of one vendor, in trial order.
pub struct AuthEntry {
    pub make: Vec<u8>,
    pub creds: Vec<Credential>,
}

/// The stored credential set: one entry per vendor.
pub struct MinerAuth {
    pub entries: Vec<AuthEntry>,
}

/// The ghost image of a credential.
pub ghost struct CredentialV {
    pub username: Seq<u8>,
    pub password: Seq<u8>,
}

impl Credential {
    /// The ghost image of this credential.
    pub open spec fn cv(self) -> CredentialV {
        CredentialV { username: self.username@, password: self.password@ }
    }
}

/// The ghost images of a candidate list.
pub open spec fn cvs(s: Seq<Credential>) -> Seq<CredentialV> {
    s.map_values(|c: Credential| c.cv())
}

/// The ghost image of a push is a push of the ghost images.
proof fn lemma_cvs_push(s: Seq<Credential>, c: Credential)
    ensures
        cvs(s.push(c)) == cvs(s).push(c.cv()),
{
    assert(cvs(s.push(c)) =~= cvs(s).push(c.cv()));
}

/// The candidates for a vendor: those of the first entry whose make
/// matches, or none when no entry matches.
pub open spec fn creds_for(entries: Seq<AuthEntry>, make: Seq<u8>) -> Seq<CredentialV>
    decreases entries.len(),
{
    if entries.len() == 0 {
        Seq::empty()
    } else if entries[0].make@ == make {
        cvs(entries[0].creds@)
    } else {
        creds_for(entries.skip(1), make)
    }
}

impl MinerAuth {
    /// An empty credential set.
    pub fn new() -> (a: MinerAuth)
        ensures
            a.entries@.len() == 0,
    {
        MinerAuth { entries: Vec::new() }
    }

    /// The ordered candidates to try for one vendor.
    pub fn get(&self, make: &Vec<u8>) -> (out: Vec<Credential>)
        ensures
            cvs(out@) == creds_for(self.entries@, make@),
    {
        let n = self.entries.len();
        let mut i: usize = 0;
        proof {
            assert(self.entries@.skip(0) =~= self.entries@);
        }
        while i < n
            invariant
                i <= n,
                n == self.entries@.len(),
                creds_for(self.entries@, make@) == creds_for(self.entries@.skip(i as int), make@),
            decreases n - i,
        {
            proof {
                assert(self.entries@.skip(i as int)[0] == self.entries@[i as int]);
                assert(self.entries@.skip(i as int).skip(1) =~= self.entries@.skip(i + 1));
            }
            if crate::text::bytes_eq(&self.entries[i].make, make) {
                let src = &self.entries[i].creds;
                let mut out: Vec<Credential> = Vec::new();
                let m = src.len();
                let mut j: usize = 0;
                while j < m
                    invariant
                        j <= m,
                        m == src@.len(),
                        cvs(out@) == cvs(src@).subrange(0, j as int),
                    decreases m - j,
                {
                    let c = Credential {
                        username: crate::text::clone_bytes(&src[j].username),
                        password: crate::text::clone_bytes(&src[j].password),
                    };
                    let ghost before = out@;
                    let ghost cvv = c.cv();
                    out.push(c);
                    proof {
                        lemma_cvs_push(before, out@.last());
                        assert(cvv == cvs(src@)[j as int]);
                        assert(cvs(out@) =~= cvs(src@).subrange(0, j + 1));
                    }
                    j = j + 1;
                }
                proof {
                    assert(cvs(src@).subrange(0, cvs(src@).len() as int) =~= cvs(src@));
                }
                return out;
            }
            i = i + 1;
        }
        proof {
            assert(self.entries@.skip(n as int) =~= Seq::<AuthEntry>::empty());
        }
        Vec::new()
    }
}

/// One authentication attempt against one device: candidates in trial
/// order, how many have failed so far, and whether one has succeeded. The
/// outcome fed back for each candidate tried is kept in a ghost log.
pub struct AuthAttempt {
    pub candidates: Vec<Credential>,
    pub next: usize,
    pub succeeded: bool,
    pub log: Ghost<Seq<bool>>,
}

impl AuthAttempt {
    /// The attempt's invariant: `next` counts the candidates tried and
    /// failed; when one succeeded it is candidate `next` and the log ends
    /// with its success; nothing past the first success was ever tried.
    pub open spec fn wf(self) -> bool {
        &&& self.next <= self.candidates@.len()
        &&& self.log@.len() == self.next + if self.succeeded {
            1int
        } else {
            0int
        }
        &&& forall|j: int| 0 <= j < self.next ==> !self.log@[j]
        &&& self.succeeded ==> self.next < self.candidates@.len() && self.log@[self.next as int]
    }

    /// A fresh attempt over the given candidates.
    pub fn new(candidates: Vec<Credential>) -> (a: AuthAttempt)
        ensures
            a.wf(),
            a.candidates == candidates,
            a.next == 0,
            !a.succeeded,
            a.log@ =~= Seq::<bool>::empty(),
    {
        AuthAttempt { candidates, next: 0, succeeded: false, log: Ghost(Seq::empty()) }
    }

    /// Whether another candidate is waiting to be tried.
    pub fn pending(&self) -> (b: bool)
        ensures
            b == (!self.succeeded && self.next < self.candidates@.len()),
    {
        !self.succeeded && self.next < self.candidates.len()
    }

    /// The candidate to try next: always the earliest not yet tried.
    pub fn current(&self) -> (c: &Credential)
        requires
            !self.succeeded,
            self.next < self.candidates@.len(),
        ensures
            *c == self.candidates@[self.next as int],
    {
        &self.candidates[self.next]
    }

    /// Record the outcome of trying the current candidate: a success ends
    /// the attempt at this candidate; a failure moves past it.
    pub fn record(&mut self, ok: bool)
        requires
            old(self).wf(),
            !old(self).succeeded,
            old(self).next < old(self).candidates@.len(),
        ensures
            final(self).wf(),
            final(self).candidates == old(self).candidates,
            final(self).log@ == old(self).log@.push(ok),
            ok ==> final(self).succeeded && final(self).next == old(self).next,
            !ok ==> !final(self).succeeded && final(self).next == old(self).next + 1,
    {
        proof {
            self.log@ = self.log@.push(ok);
        }
        if ok {
            self.succeeded = true;
        } else {
            let cap = self.candidates.len();
            assert(self.next < cap);
            self.next = self.next + 1;
        }
    }

    /// Whether the candidate list ran out without a success.
    pub fn exhausted(&self) -> (b: bool)
        ensures
            b == (!self.succeeded && self.next == self.candidates@.len()),
    {
        !self.succeeded && self.next == self.candidates.len()
    }
}

/// Credential fallback tries candidates strictly in order and stops at the
/// first success: when an attempt has succeeded, every earlier candidate
/// was tried and failed, the successful one is the last tried, and no later
/// candidate was ever handed out.
pub proof fn lemma_credential_fallback(a: AuthAttempt)
    requires
        a.wf(),
        a.succeeded,
    ensures
        a.log@.len() == a.next + 1,
        forall|j: int| 0 <= j < a.next ==> !a.log@[j],
        a.log@[a.next as int],
        a.next < a.candidates@.len(),
{
}

/// When an attempt runs out of candidates, every candidate was tried and
/// every trial failed.
pub proof fn lemma_fallback_exhausted(a: AuthAttempt)
    requires
        a.wf(),
        !a.succeeded,
        a.next == a.candidates@.len(),
    ensures
        a.log@.len() == a.candidates@.len(),
        forall|j: int| 0 <= j < a.log@.len() ==> !a.log@[j],
{
}

} // verus!
