use fleetjobs::jobs::{Action, Job, JobRunner, JobState, PrepareError, RebootJob, ScanJob, Task, log_file_name, prepare};
use fleetjobs::progress::Progress;
use fleetjobs::topology::{DbCan, DbMiner, DbRack, Placement};

fn miner(rack_id: i64, ip: &[u8], row: i64, index: i64) -> DbMiner {
    DbMiner { id: 0, rack_id, ip: ip.to_vec(), row, index }
}

fn small_can() -> DbCan {
    let rack0 = DbRack {
        id: 10,
        can_id: 1,
        name: b"R0".to_vec(),
        index: 0,
        width: 2,
        height: 2,
        miners: vec![
            vec![miner(10, b"10.0.0.1", 0, 0), miner(10, b"10.0.0.2", 0, 1)],
            vec![miner(10, b"10.0.0.3", 1, 0)],
        ],
    };
    let rack1 = DbRack {
        id: 11,
        can_id: 1,
        name: b"R1".to_vec(),
        index: 1,
        width: 1,
        height: 1,
        miners: vec![vec![miner(11, b"10.0.1.1", 0, 0)]],
    };
    DbCan { id: 1, name: b"CanA".to_vec(), num: 24, racks: vec![rack0, rack1] }
}

fn make_tasks(n: usize) -> Vec<Task> {
    let mut tasks = Vec::new();
    for i in 0..n {
        tasks.push(Task {
            place: Placement {
                ip: format!("10.0.0.{}", i).into_bytes(),
                can: 1,
                rack: 0,
                row: 0,
                index: i as i64,
            },
            action: Action::Scan,
        });
    }
    tasks
}

#[test]
fn full_run_counts_every_task_and_completes_the_ratio() {
    let mut runner = JobRunner::new(make_tasks(5), b"scan".to_vec());
    assert_eq!(runner.progress.done, 0);
    for _ in 0..5 {
        assert!(!runner.is_finished());
        runner.record_completed();
    }
    assert!(runner.is_finished());
    assert_eq!(runner.progress.done, 5);
    assert_eq!(runner.progress.ratio_permille(), 1000);
}

#[test]
fn cancellation_stops_the_count_short() {
    let mut runner = JobRunner::new(make_tasks(5), b"scan".to_vec());
    runner.record_completed();
    runner.record_completed();
    runner.observe_cancel();
    while !runner.is_finished() {
        runner.record_abandoned();
    }
    assert_eq!(runner.progress.done, 2);
    assert_eq!(runner.abandoned, 3);
    assert!(runner.progress.ratio_permille() < 1000);
}

#[test]
fn cancelling_before_anything_settles_completes_nothing() {
    let mut runner = JobRunner::new(make_tasks(3), b"reboot".to_vec());
    runner.observe_cancel();
    while !runner.is_finished() {
        runner.record_abandoned();
    }
    assert_eq!(runner.progress.done, 0);
    assert_eq!(runner.progress.ratio_permille(), 0);
}

#[test]
fn second_submission_is_rejected_without_touching_the_first() {
    let mut guard = JobState::new();
    assert!(guard.try_start());
    assert!(guard.working);
    assert!(!guard.try_start());
    assert!(guard.working);
    assert!(guard.has_cancel);
    guard.done();
    assert!(guard.try_start());
}

#[test]
fn cancel_fires_exactly_once() {
    let mut guard = JobState::new();
    assert!(guard.try_start());
    assert!(guard.cancel());
    assert!(!guard.cancel());
    assert!(guard.working);
}

#[test]
fn cancel_without_an_active_job_is_a_no_op() {
    let mut guard = JobState::new();
    assert!(!guard.cancel());
}

#[test]
fn scan_prepares_every_device_in_enumeration_order() {
    let cans = vec![small_can()];
    let tasks = prepare(&Job::Scan(ScanJob { can: 1 }), &cans).unwrap();
    let ips: Vec<Vec<u8>> = tasks.iter().map(|t| t.place.ip.clone()).collect();
    assert_eq!(
        ips,
        vec![
            b"10.0.0.1".to_vec(),
            b"10.0.0.2".to_vec(),
            b"10.0.0.3".to_vec(),
            b"10.0.1.1".to_vec(),
        ]
    );
    for t in &tasks {
        assert!(matches!(t.action, Action::Scan));
        assert_eq!(t.place.can, 24);
    }
    assert_eq!(tasks[2].place.rack, 0);
    assert_eq!(tasks[2].place.row, 1);
    assert_eq!(tasks[2].place.index, 0);
    assert_eq!(tasks[3].place.rack, 1);
}

#[test]
fn scan_of_an_unknown_container_is_fatal() {
    let cans = vec![small_can()];
    let out = prepare(&Job::Scan(ScanJob { can: 99 }), &cans);
    assert!(matches!(out, Err(PrepareError::UnknownContainer)));
}

#[test]
fn addressed_job_resolves_each_address() {
    let cans = vec![small_can()];
    let job = Job::Reboot(RebootJob { ips: vec![b"10.0.1.1".to_vec(), b"10.0.0.2".to_vec()] });
    let tasks = prepare(&job, &cans).unwrap();
    assert_eq!(tasks.len(), 2);
    assert_eq!(tasks[0].place.ip, b"10.0.1.1".to_vec());
    assert_eq!(tasks[0].place.rack, 1);
    assert!(matches!(tasks[0].action, Action::Reboot));
    assert_eq!(tasks[1].place.ip, b"10.0.0.2".to_vec());
    assert_eq!(tasks[1].place.row, 0);
    assert_eq!(tasks[1].place.index, 1);
}

#[test]
fn addressed_job_with_an_unknown_address_is_fatal() {
    let cans = vec![small_can()];
    let job = Job::Reboot(RebootJob { ips: vec![b"10.0.0.1".to_vec(), b"10.9.9.9".to_vec()] });
    let out = prepare(&job, &cans);
    assert!(matches!(out, Err(PrepareError::UnknownAddress)));
}

#[test]
fn log_file_names_fold_the_mac() {
    let out = log_file_name(&b"C:\\logs".to_vec(), &b"AA:BB:0C".to_vec());
    assert_eq!(out, b"C:\\logs\\aa.bb.0c.log".to_vec());
}

#[test]
fn progress_counts_up_to_its_total() {
    let mut p = Progress::new(b"scan".to_vec(), 4);
    assert!(!p.is_complete());
    let mut seen = Vec::new();
    for _ in 0..4 {
        p.increment();
        seen.push(p.ratio_permille());
    }
    assert_eq!(seen, vec![250, 500, 750, 1000]);
    assert!(p.is_complete());
    assert_eq!(p.done, 4);
    assert_eq!(p.max, 4);
}
