//! The progress aggregator: "N of M done" for one running job.
//!
//! A progress value is created when a job starts, mutated only through
//! `increment`, and discarded when the job ends. The completed count never
//! decreases and never exceeds the total. The ratio is carried as the exact
//! pair (done, max); `ratio_permille` renders it in thousandths for
//! emission.

use vstd::prelude::*;

verus! {

/// Progress of one job: `done` of `max` units completed, under a label.
pub struct Progress {
    pub done: usize,
    pub max: usize,
    pub job: Vec<u8>,
}

impl Progress {
    /// The progress invariant: the completed count never exceeds the total.
    pub open spec fn wf(self) -> bool {
        self.done <= self.max
    }

    /// Fresh progress: nothing done yet.
    pub fn new(job: Vec<u8>, max: usize) -> (p: Progress)
        ensures
            p.wf(),
            p.done == 0,
            p.max == max,
            p.job == job,
    {
        Progress { done: 0, max, job }
    }

    /// One more unit completed.
    pub fn increment(&mut self)
        requires
            old(self).wf(),
            old(self).done < old(self).max,
        ensures
            final(self).wf(),
            final(self).done == old(self).done + 1,
            final(self).max == old(self).max,
            final(self).job == old(self).job,
    {
        self.done = self.done + 1;
    }

    /// Whether every unit has completed.
    pub fn is_complete(&self) -> (b: bool)
        ensures
            b == (self.done == self.max),
    {
        self.done == self.max
    }

    /// The ratio done/max in thousandths, rounded down: 1000 exactly when
    /// the job has completed.
    pub fn ratio_permille(&self) -> (r: u64)
        requires
            self.wf(),
            self.max > 0,
        ensures
            r == self.done as int * 1000 / self.max as int,
            r <= 1000,
            (r == 1000) == (self.done == self.max),
    {
        let d = self.done as u128;
        let m = self.max as u128;
        let q = d * 1000 / m;
        proof {
            let dd = self.done as int;
            let mm = self.max as int;
            assert((dd * 1000 / mm <= 1000) && ((dd == mm) ==> dd * 1000 / mm == 1000) && ((dd
                < mm) ==> dd * 1000 / mm < 1000)) by (nonlinear_arith)
                requires
                    0 < mm,
                    0 <= dd <= mm,
            ;
        }
        q as u64
    }
}

} // verus!
