//! Jobs: one fleet-wide bulk operation resolved into one task per device,
//! run concurrently to completion or cancellation.
//!
//! `prepare` turns a job specification and the topology into the ordered
//! task list; a failure to resolve an address or container is fatal and
//! aborts the job before any device is touched. The `JobRunner` is the
//! run's bookkeeping: tasks settle one by one, a completion increments the
//! progress, a task preempted by cancellation is abandoned and never
//! counted. The scheduler that races each task against the cancellation
//! signal lives with the binary; every rule it must follow is stated here.

use vstd::prelude::*;

use crate::config::Pool;
use crate::models::Profile;
use crate::progress::Progress;
use crate::topology::{DbCan, Placement, can_places, lookup_device};

verus! {

/// What one task does to its device.
pub enum Action {
    Scan,
    Reboot,
    Sleep { enabled: bool },
    Locate { enabled: bool },
    SetPool { pool: Pool },
    SetProfile { profile: Profile },
    FetchLogs { folder: Vec<u8> },
}

/// One resolved, self-contained unit of work: a device with its position,
/// and what to do to it. Created by `prepare`, consumed exactly once.
pub struct Task {
    pub place: Placement,
    pub action: Action,
}

/// A scan of one whole container.
pub struct ScanJob {
    pub can: i64,
}

/// Turning the locate indicator on or off on the given devices.
pub struct LocateJob {
    pub ips: Vec<Vec<u8>>,
    pub locate: bool,
}

/// Rebooting the given devices.
pub struct RebootJob {
    pub ips: Vec<Vec<u8>>,
}

/// Pointing the given devices at a stored pool template.
pub struct PoolJob {
    pub ips: Vec<Vec<u8>>,
    pub pool: Pool,
}

/// Putting the given devices to sleep or waking them.
pub struct SleepJob {
    pub ips: Vec<Vec<u8>>,
    pub sleep: bool,
}

/// Setting the given devices to a performance profile.
pub struct ProfileJob {
    pub ips: Vec<Vec<u8>>,
    pub profile: Profile,
}

/// Fetching the given devices' logs into a folder.
pub struct LogJob {
    pub ips: Vec<Vec<u8>>,
    pub path: Vec<u8>,
}

/// One job specification: a closed union, one variant per operation kind.
pub enum Job {
    Scan(ScanJob),
    Locate(LocateJob),
    Reboot(RebootJob),
    Pool(PoolJob),
    Sleep(SleepJob),
    Profile(ProfileJob),
}

/// Why preparation failed: fatal, surfaced before any device is touched.
#[derive(Debug, PartialEq, Eq, Structural)]
pub enum PrepareError {
    UnknownContainer,
    UnknownAddress,
}

/// Two pool templates holding the same text.
pub open spec fn pool_like(a: Pool, b: Pool) -> bool {
    &&& a.name@ == b.name@
    &&& a.url1@ == b.url1@
    &&& a.url2@ == b.url2@
    &&& a.url3@ == b.url3@
    &&& a.username@ == b.username@
    &&& match (a.password, b.password) {
        (Some(x), Some(y)) => x@ == y@,
        (None, None) => true,
        _ => false,
    }
}

/// Two profiles holding the same values.
pub open spec fn profile_like(a: Profile, b: Profile) -> bool {
    match (a, b) {
        (Profile::Default, Profile::Default) => true,
        (Profile::LowPower, Profile::LowPower) => true,
        (
            Profile::Preset { name: n1, power_milli: p1, ths_milli: t1 },
            Profile::Preset { name: n2, power_milli: p2, ths_milli: t2 },
        ) => n1@ == n2@ && p1 == p2 && t1 == t2,
        (Profile::Manual { .. }, Profile::Manual { .. }) => a == b,
        _ => false,
    }
}

/// The action every task of this job carries.
pub open spec fn action_for(job: Job, a: Action) -> bool {
    match job {
        Job::Scan(_) => a is Scan,
        Job::Reboot(_) => a is Reboot,
        Job::Sleep(sj) => match a {
            Action::Sleep { enabled } => enabled == sj.sleep,
            _ => false,
        },
        Job::Locate(lj) => match a {
            Action::Locate { enabled } => enabled == lj.locate,
            _ => false,
        },
        Job::Pool(pj) => match a {
            Action::SetPool { pool } => pool_like(pool, pj.pool),
            _ => false,
        },
        Job::Profile(fj) => match a {
            Action::SetProfile { profile } => profile_like(profile, fj.profile),
            _ => false,
        },
    }
}

/// The addresses a job names; a scan names none (it resolves a container).
pub open spec fn job_ips(job: Job) -> Seq<Vec<u8>> {
    match job {
        Job::Scan(_) => Seq::empty(),
        Job::Locate(lj) => lj.ips@,
        Job::Reboot(rj) => rj.ips@,
        Job::Pool(pj) => pj.ips@,
        Job::Sleep(sj) => sj.ips@,
        Job::Profile(fj) => fj.ips@,
    }
}

/// The first container with the given id.
pub open spec fn find_can(cans: Seq<DbCan>, id: int) -> Option<DbCan>
    decreases cans.len(),
{
    if cans.len() == 0 {
        None
    } else if cans[0].id == id {
        Some(cans[0])
    } else {
        find_can(cans.skip(1), id)
    }
}

/// A copy of a pool template.
pub fn clone_pool(p: &Pool) -> (out: Pool)
    ensures
        pool_like(out, *p),
{
    Pool {
        name: crate::text::clone_bytes(&p.name),
        url1: crate::text::clone_bytes(&p.url1),
        url2: crate::text::clone_bytes(&p.url2),
        url3: crate::text::clone_bytes(&p.url3),
        username: crate::text::clone_bytes(&p.username),
        password: crate::pools::clone_password(&p.password),
    }
}

/// A copy of a profile.
pub fn clone_profile(p: &Profile) -> (out: Profile)
    ensures
        profile_like(out, *p),
{
    match p {
        Profile::Default => Profile::Default,
        Profile::LowPower => Profile::LowPower,
        Profile::Preset { name, power_milli, ths_milli } => Profile::Preset {
            name: crate::text::clone_bytes(name),
            power_milli: *power_milli,
            ths_milli: *ths_milli,
        },
        Profile::Manual { volt, freq, min_freq, max_freq, min_volt, max_volt, def_freq, def_volt } => Profile::Manual {
            volt: *volt,
            freq: *freq,
            min_freq: *min_freq,
            max_freq: *max_freq,
            min_volt: *min_volt,
            max_volt: *max_volt,
            def_freq: *def_freq,
            def_volt: *def_volt,
        },
    }
}

/// The container with the given id, or `None`.
fn find_can_exec<'a>(cans: &'a Vec<DbCan>, id: i64) -> (out: Option<&'a DbCan>)
    ensures
        match out {
            Some(c) => find_can(cans@, id as int) == Some(*c),
            None => find_can(cans@, id as int) is None,
        },
{
    let n = cans.len();
    let mut i: usize = 0;
    proof {
        assert(cans@.skip(0) =~= cans@);
    }
    while i < n
        invariant
            i <= n,
            n == cans@.len(),
            find_can(cans@, id as int) == find_can(cans@.skip(i as int), id as int),
        decreases n - i,
    {
        proof {
            assert(cans@.skip(i as int)[0] == cans@[i as int]);
            assert(cans@.skip(i as int).skip(1) =~= cans@.skip(i + 1));
        }
        if cans[i].id == id {
            return Some(&cans[i]);
        }
        i = i + 1;
    }
    proof {
        assert(cans@.skip(n as int) =~= Seq::<DbCan>::empty());
    }
    None
}

/// The action one task of this job performs.
fn action_of(job: &Job) -> (a: Action)
    ensures
        action_for(*job, a),
{
    match job {
        Job::Scan(_) => Action::Scan,
        Job::Reboot(_) => Action::Reboot,
        Job::Sleep(sj) => Action::Sleep { enabled: sj.sleep },
        Job::Locate(lj) => Action::Locate { enabled: lj.locate },
        Job::Pool(pj) => Action::SetPool { pool: clone_pool(&pj.pool) },
        Job::Profile(fj) => Action::SetProfile { profile: clone_profile(&fj.profile) },
    }
}

/// Resolve a job against the topology into its ordered task list.
///
/// A scan targets every device of its container, in enumeration order; the
/// other jobs target their addresses, in the order given. Resolution
/// failure — a container id or an address that the topology does not hold —
/// is fatal: the whole job is rejected and no task is produced.
pub fn prepare(job: &Job, cans: &Vec<DbCan>) -> (out: Result<Vec<Task>, PrepareError>)
    ensures
        match out {
            Ok(tasks) => match *job {
                Job::Scan(sj) => match find_can(cans@, sj.can as int) {
                    Some(c) => tasks@.len() == can_places(c).len() && forall|i: int|
                        0 <= i < tasks@.len() ==> (#[trigger] tasks@[i]).place.pv() == can_places(
                            c,
                        )[i] && tasks@[i].action is Scan,
                    None => false,
                },
                _ => tasks@.len() == job_ips(*job).len() && forall|i: int|
                    0 <= i < tasks@.len() ==> lookup_device(cans@, job_ips(*job)[i]@) == Some(
                        (#[trigger] tasks@[i]).place.pv(),
                    ) && action_for(*job, tasks@[i].action),
            },
            Err(e) => match *job {
                Job::Scan(sj) => e == PrepareError::UnknownContainer && find_can(
                    cans@,
                    sj.can as int,
                ) is None,
                _ => e == PrepareError::UnknownAddress && exists|i: int|
                    0 <= i < job_ips(*job).len() && lookup_device(
                        cans@,
                        (#[trigger] job_ips(*job)[i])@,
                    ) is None,
            },
        },
{
    match job {
        Job::Scan(sj) => {
            match find_can_exec(cans, sj.can) {
                Some(c) => {
                    let places = crate::topology::enumerate_can(c);
                    let mut tasks: Vec<Task> = Vec::new();
                    let mut places = places;
                    let ghost all = crate::topology::pvs(places@);
                    let ghost mut k: int = 0;
                    while places.len() > 0
                        invariant
                            0 <= k <= all.len(),
                            crate::topology::pvs(places@) =~= all.skip(k),
                            tasks@.len() == k,
                            forall|i: int|
                                0 <= i < k ==> (#[trigger] tasks@[i]).place.pv() == all[i]
                                    && tasks@[i].action is Scan,
                        decreases places@.len(),
                    {
                        let ghost pl = places@;
                        let p = places.remove(0);
                        let ghost tv = p.pv();
                        tasks.push(Task { place: p, action: Action::Scan });
                        proof {
                            assert(tv == crate::topology::pvs(pl)[0]);
                            assert(crate::topology::pvs(pl).len() == pl.len());
                            assert(pl.len() > 0);
                            assert(k < all.len());
                            assert(all.skip(k)[0] == all[k]);
                            assert(tv == all[k]);
                            assert(crate::topology::pvs(places@) =~= crate::topology::pvs(
                                pl,
                            ).skip(1));
                            assert(crate::topology::pvs(pl).skip(1) =~= all.skip(k + 1));
                            k = k + 1;
                        }
                    }
                    proof {
                        assert(all.skip(k).len() == 0);
                        assert(k == all.len());
                    }
                    Ok(tasks)
                },
                None => Err(PrepareError::UnknownContainer),
            }
        },
        Job::Locate(lj) => prepare_addressed(job, &lj.ips, cans),
        Job::Reboot(rj) => prepare_addressed(job, &rj.ips, cans),
        Job::Pool(pj) => prepare_addressed(job, &pj.ips, cans),
        Job::Sleep(sj) => prepare_addressed(job, &sj.ips, cans),
        Job::Profile(fj) => prepare_addressed(job, &fj.ips, cans),
    }
}

/// The address-list jobs' shared resolution: one task per address, in the
/// order given; an address the topology does not hold is fatal.
fn prepare_addressed(job: &Job, ips: &Vec<Vec<u8>>, cans: &Vec<DbCan>) -> (out: Result<
    Vec<Task>,
    PrepareError,
>)
    requires
        !(job is Scan),
        ips@ == job_ips(*job),
    ensures
        match out {
            Ok(tasks) => tasks@.len() == job_ips(*job).len() && forall|i: int|
                0 <= i < tasks@.len() ==> lookup_device(cans@, job_ips(*job)[i]@) == Some(
                    (#[trigger] tasks@[i]).place.pv(),
                ) && action_for(*job, tasks@[i].action),
            Err(e) => e == PrepareError::UnknownAddress && exists|i: int|
                0 <= i < job_ips(*job).len() && lookup_device(
                    cans@,
                    (#[trigger] job_ips(*job)[i])@,
                ) is None,
        },
{
    let n = ips.len();
    let mut tasks: Vec<Task> = Vec::new();
    let mut i: usize = 0;
    while i < n
        invariant
            i <= n,
            n == ips@.len(),
            ips@ == job_ips(*job),
            !(job is Scan),
            tasks@.len() == i,
            forall|k: int|
                0 <= k < i ==> lookup_device(cans@, ips@[k]@) == Some(
                    (#[trigger] tasks@[k]).place.pv(),
                ) && action_for(*job, tasks@[k].action),
        decreases n - i,
    {
        match crate::topology::find_device(cans, &ips[i]) {
            Some(place) => {
                let action = action_of(job);
                tasks.push(Task { place, action });
            },
            None => {
                assert(lookup_device(cans@, job_ips(*job)[i as int]@) is None);
                return Err(PrepareError::UnknownAddress);
            },
        }
        i = i + 1;
    }
    Ok(tasks)
}

/// The file a device's logs are written to: the folder, a backslash, the
/// device's MAC address folded to lower case with each colon replaced by a
/// dot, and the extension `.log`.
pub open spec fn log_name_seq(folder: Seq<u8>, mac: Seq<u8>) -> Seq<u8> {
    folder + seq![92u8] + crate::text::replace_all_seq(
        crate::text::lower_seq(mac),
        seq![58u8],
        seq![46u8],
    ) + seq![46u8, 108u8, 111u8, 103u8]
}

/// The log file name for one device's MAC address.
pub fn log_file_name(folder: &Vec<u8>, mac: &Vec<u8>) -> (out: Vec<u8>)
    ensures
        out@ == log_name_seq(folder@, mac@),
{
    let mut out = crate::text::clone_bytes(folder);
    out.push(92);
    let lowered = crate::text::ascii_lower(mac);
    let mut colon: Vec<u8> = Vec::new();
    colon.push(58);
    let mut dot: Vec<u8> = Vec::new();
    dot.push(46);
    let mut dotted = crate::text::replace_all(&lowered, &colon, &dot);
    proof {
        assert(colon@ =~= seq![58u8]);
        assert(dot@ =~= seq![46u8]);
    }
    out.append(&mut dotted);
    out.push(46);
    out.push(108);
    out.push(111);
    out.push(103);
    proof {
        assert(out@ =~= log_name_seq(folder@, mac@));
    }
    out
}

/// One event of a run's bookkeeping, in the order the runner observed it.
pub enum RunEvent {
    Completed,
    Abandoned,
    Cancelled,
}

/// How many tasks the run completed.
pub open spec fn count_completed(h: Seq<RunEvent>) -> int
    decreases h.len(),
{
    if h.len() == 0 {
        0
    } else {
        count_completed(h.drop_last()) + if h.last() is Completed {
            1int
        } else {
            0int
        }
    }
}

/// How many tasks the run abandoned to cancellation.
pub open spec fn count_abandoned(h: Seq<RunEvent>) -> int
    decreases h.len(),
{
    if h.len() == 0 {
        0
    } else {
        count_abandoned(h.drop_last()) + if h.last() is Abandoned {
            1int
        } else {
            0int
        }
    }
}

/// Whether the run has observed the cancellation signal.
pub open spec fn has_cancel(h: Seq<RunEvent>) -> bool {
    exists|i: int| 0 <= i < h.len() && h[i] is Cancelled
}

/// No completion is recorded after the cancellation was observed.
pub open spec fn no_completion_after_cancel(h: Seq<RunEvent>) -> bool {
    forall|i: int, j: int|
        #![trigger h[i], h[j]]
        0 <= i < j < h.len() && h[i] is Cancelled ==> !(h[j] is Completed)
}

proof fn lemma_counts_push(h: Seq<RunEvent>, e: RunEvent)
    ensures
        count_completed(h.push(e)) == count_completed(h) + if e is Completed {
            1int
        } else {
            0int
        },
        count_abandoned(h.push(e)) == count_abandoned(h) + if e is Abandoned {
            1int
        } else {
            0int
        },
        has_cancel(h.push(e)) == (has_cancel(h) || e is Cancelled),
{
    assert(h.push(e).drop_last() =~= h);
    assert(h.push(e).last() == e);
    if has_cancel(h) {
        let i = choose|i: int| 0 <= i < h.len() && h[i] is Cancelled;
        assert(h.push(e)[i] is Cancelled);
    }
    if e is Cancelled {
        assert(h.push(e)[h.len() as int] is Cancelled);
    }
    if has_cancel(h.push(e)) && !(e is Cancelled) {
        let i = choose|i: int| 0 <= i < h.push(e).len() && h.push(e)[i] is Cancelled;
        assert(0 <= i < h.len() && h[i] is Cancelled);
    }
}

/// One job run's bookkeeping: the tasks it owns, what has settled and how.
/// The ghost history records every event the runner observed, in order.
pub struct JobRunner {
    pub tasks: Vec<Task>,
    pub total: usize,
    pub abandoned: usize,
    pub cancelled: bool,
    pub progress: Progress,
    pub history: Ghost<Seq<RunEvent>>,
}

impl JobRunner {
    /// The run invariant: the counters tally the history; a completion is
    /// never recorded after the cancellation was observed; without a
    /// cancellation nothing is ever abandoned.
    pub open spec fn wf(self) -> bool {
        &&& self.progress.max == self.total
        &&& self.progress.done == count_completed(self.history@)
        &&& self.abandoned == count_abandoned(self.history@)
        &&& self.progress.done + self.abandoned <= self.total
        &&& self.cancelled == has_cancel(self.history@)
        &&& !self.cancelled ==> self.abandoned == 0
        &&& no_completion_after_cancel(self.history@)
    }

    /// How many tasks have settled, by completion or abandonment.
    pub open spec fn settled(self) -> int {
        self.progress.done + self.abandoned
    }

    /// A fresh run over the prepared tasks: nothing settled, progress zero.
    pub fn new(tasks: Vec<Task>, job: Vec<u8>) -> (r: JobRunner)
        ensures
            r.wf(),
            r.tasks == tasks,
            r.total == tasks@.len(),
            r.progress.done == 0,
            r.progress.job == job,
            r.abandoned == 0,
            !r.cancelled,
            r.history@ == Seq::<RunEvent>::empty(),
    {
        let total = tasks.len();
        let runner = JobRunner {
            tasks,
            total,
            abandoned: 0,
            cancelled: false,
            progress: Progress::new(job, total),
            history: Ghost(Seq::empty()),
        };
        proof {
            assert(!has_cancel(Seq::<RunEvent>::empty()));
        }
        runner
    }

    /// One task finished its work before the cancellation signal: it counts,
    /// and the progress is incremented.
    pub fn record_completed(&mut self)
        requires
            old(self).wf(),
            !old(self).cancelled,
            old(self).settled() < old(self).total,
        ensures
            final(self).wf(),
            final(self).tasks == old(self).tasks,
            final(self).total == old(self).total,
            final(self).abandoned == old(self).abandoned,
            !final(self).cancelled,
            final(self).progress.done == old(self).progress.done + 1,
            final(self).progress.job == old(self).progress.job,
            final(self).history@ == old(self).history@.push(RunEvent::Completed),
    {
        proof {
            lemma_counts_push(self.history@, RunEvent::Completed);
            self.history@ = self.history@.push(RunEvent::Completed);
        }
        self.progress.increment();
        proof {
            let h = self.history@;
            let h0 = old(self).history@;
            assert forall|i: int, j: int|
                #![trigger h[i], h[j]]
                0 <= i < j < h.len() && h[i] is Cancelled implies !(h[j] is Completed) by {
                assert(h0[i] is Cancelled);
                if j < h0.len() {
                    assert(!(h0[j] is Completed));
                } else {
                    assert(has_cancel(h0));
                }
            }
            assert(no_completion_after_cancel(h));
        }
    }

    /// The runner observed the cancellation signal: from here on no task
    /// completion is counted, only abandonments.
    pub fn observe_cancel(&mut self)
        requires
            old(self).wf(),
        ensures
            final(self).wf(),
            final(self).tasks == old(self).tasks,
            final(self).total == old(self).total,
            final(self).abandoned == old(self).abandoned,
            final(self).cancelled,
            final(self).progress == old(self).progress,
            final(self).history@ == old(self).history@.push(RunEvent::Cancelled),
    {
        proof {
            lemma_counts_push(self.history@, RunEvent::Cancelled);
            self.history@ = self.history@.push(RunEvent::Cancelled);
        }
        self.cancelled = true;
        proof {
            let h = self.history@;
            let h0 = old(self).history@;
            assert forall|i: int, j: int|
                #![trigger h[i], h[j]]
                0 <= i < j < h.len() && h[i] is Cancelled implies !(h[j] is Completed) by {
                if j < h0.len() {
                    assert(h0[i] is Cancelled);
                    assert(!(h0[j] is Completed));
                }
            }
            assert(no_completion_after_cancel(h));
        }
    }

    /// One task was preempted by the cancellation: it settles without being
    /// counted and is never retried.
    pub fn record_abandoned(&mut self)
        requires
            old(self).wf(),
            old(self).cancelled,
            old(self).settled() < old(self).total,
        ensures
            final(self).wf(),
            final(self).tasks == old(self).tasks,
            final(self).total == old(self).total,
            final(self).abandoned == old(self).abandoned + 1,
            final(self).cancelled,
            final(self).progress == old(self).progress,
            final(self).history@ == old(self).history@.push(RunEvent::Abandoned),
    {
        proof {
            lemma_counts_push(self.history@, RunEvent::Abandoned);
            self.history@ = self.history@.push(RunEvent::Abandoned);
        }
        let total = self.total;
        assert(self.abandoned < total);
        self.abandoned = self.abandoned + 1;
        proof {
            let h = self.history@;
            let h0 = old(self).history@;
            assert forall|i: int, j: int|
                #![trigger h[i], h[j]]
                0 <= i < j < h.len() && h[i] is Cancelled implies !(h[j] is Completed) by {
                if j < h0.len() {
                    assert(h0[i] is Cancelled);
                    assert(!(h0[j] is Completed));
                }
            }
            assert(no_completion_after_cancel(h));
        }
    }

    /// Whether every task has settled: the run returns only then.
    pub fn is_finished(&self) -> (b: bool)
        requires
            self.wf(),
        ensures
            b == (self.settled() == self.total),
    {
        self.progress.done + self.abandoned == self.total
    }
}

/// A job run to completion without cancellation completes every task:
/// exactly as many completions were recorded as there are tasks, so the
/// final ratio is whole (`ratio_permille` renders it as 1000). This holds
/// whatever each device's own reads returned: a device whose workflow
/// failed internally still settles as completed, its failure recorded only
/// in its own observation.
pub proof fn lemma_run_to_completion(r: JobRunner)
    requires
        r.wf(),
        !r.cancelled,
        r.settled() == r.total,
    ensures
        r.progress.done == r.total,
        count_completed(r.history@) == r.total,
        r.abandoned == 0,
{
}

/// A cancelled run that abandoned at least one task ends with strictly
/// fewer completions than tasks — the ratio stays below whole — and no
/// completion was ever recorded after the cancellation was observed.
pub proof fn lemma_cancelled_run(r: JobRunner)
    requires
        r.wf(),
        r.settled() == r.total,
        r.abandoned > 0,
    ensures
        r.progress.done < r.total,
        count_completed(r.history@) < r.total,
        no_completion_after_cancel(r.history@),
{
}

/// The job-in-progress guard: at most one fleet-wide job runs at a time,
/// and the active job's cancellation handle fires at most once.
pub struct JobState {
    pub working: bool,
    pub has_cancel: bool,
}

/// What a submission does to the guard: rejected without any change while a
/// job is active, otherwise the job starts and holds the cancel handle.
pub open spec fn try_start_spec(s: JobState) -> (JobState, bool) {
    if s.working {
        (s, false)
    } else {
        (JobState { working: true, has_cancel: true }, true)
    }
}

/// What a cancel request does to the guard: it takes the handle, so the
/// signal fires only if the handle was still held; the working flag is the
/// running job's to clear.
pub open spec fn cancel_spec(s: JobState) -> (JobState, bool) {
    (JobState { working: s.working, has_cancel: false }, s.has_cancel)
}

impl JobState {
    /// A fresh guard: no job active, no cancel handle held.
    pub fn new() -> (s: JobState)
        ensures
            !s.working,
            !s.has_cancel,
    {
        JobState { working: false, has_cancel: false }
    }

    /// Submit a job: accepted only while none is active.
    pub fn try_start(&mut self) -> (ok: bool)
        ensures
            (*final(self), ok) == try_start_spec(*old(self)),
            ok == !old(self).working,
            !ok ==> *final(self) == *old(self),
    {
        if self.working {
            false
        } else {
            self.working = true;
            self.has_cancel = true;
            true
        }
    }

    /// The active job finished (completed or cancelled): release the guard.
    pub fn done(&mut self)
        ensures
            !final(self).working,
            !final(self).has_cancel,
    {
        self.working = false;
        self.has_cancel = false;
    }

    /// Request cancellation: returns whether the signal should fire now.
    /// Cancelling an already-cancelled or finished job is a no-op.
    pub fn cancel(&mut self) -> (signal: bool)
        ensures
            (*final(self), signal) == cancel_spec(*old(self)),
            signal == old(self).has_cancel,
            final(self).working == old(self).working,
            !final(self).has_cancel,
    {
        if self.has_cancel {
            self.has_cancel = false;
            true
        } else {
            false
        }
    }
}

/// Submitting a second job while one is active fails and leaves the guard
/// — hence the first job's run and progress stream — untouched.
pub proof fn lemma_reject_concurrent_jobs(s: JobState)
    requires
        !s.working,
    ensures
        try_start_spec(s).1,
        !try_start_spec(try_start_spec(s).0).1,
        try_start_spec(try_start_spec(s).0).0 == try_start_spec(s).0,
{
}

/// The cancellation signal fires at most once per job: a second cancel
/// request is a no-op, not an error.
pub proof fn lemma_cancel_single_fire(s: JobState)
    ensures
        !cancel_spec(cancel_spec(s).0).1,
        cancel_spec(cancel_spec(s).0).0 == cancel_spec(s).0,
{
}

} // verus!
