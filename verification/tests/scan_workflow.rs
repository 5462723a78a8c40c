use fleetjobs::miner::{Miner, RetryPolicy, ScanReads, needs_error_query};
use fleetjobs::pools::PoolEndpoint;
use fleetjobs::jobs::{Action, JobRunner, Task};
use fleetjobs::topology::Placement;

fn fresh() -> Miner {
    Miner::default(b"10.0.0.1".to_vec(), 2, 1, 3, 24)
}

fn reads_all_ok() -> ScanReads {
    ScanReads {
        model: Some(b"S19-88".to_vec()),
        hashrate: Some(95),
        temp: Some(652),
        fan: Some(vec![4000, 4100]),
        mac: Some(b"AA:BB".to_vec()),
        locate: Some(true),
        pools: Some(vec![PoolEndpoint {
            url: b"stratum+tcp://pool:3333".to_vec(),
            worker: b"w".to_vec(),
            password: None,
        }]),
        power: Some(3250),
        nameplate: Some(100),
        sleep: Some(false),
        errors: None,
    }
}

#[test]
fn zero_hashrate_always_queries_error_codes() {
    assert!(needs_error_query(0, None, 80));
    assert!(needs_error_query(0, Some(100), 80));
}

#[test]
fn hashrate_near_nameplate_skips_the_query() {
    assert!(!needs_error_query(95, Some(100), 80));
}

#[test]
fn hashrate_below_threshold_triggers_the_query() {
    assert!(needs_error_query(70, Some(100), 80));
}

#[test]
fn hashrate_without_nameplate_skips_the_query() {
    assert!(!needs_error_query(1, None, 80));
}

#[test]
fn error_reads_are_bounded_to_three_attempts() {
    let policy = RetryPolicy::error_reads();
    assert_eq!(policy.max_attempts, 3);
    assert!(policy.should_retry(0, false));
    assert!(policy.should_retry(2, false));
    assert!(!policy.should_retry(3, false));
    assert!(!policy.should_retry(1, true));
}

#[test]
fn successful_reads_land_in_the_observation() {
    let mut m = fresh();
    m.apply_reads(reads_all_ok());
    assert_eq!(m.model, Some(b"S19-88".to_vec()));
    assert_eq!(m.hashrate, Some(95));
    assert_eq!(m.temp, Some(652));
    assert_eq!(m.fan, Some(vec![4000, 4100]));
    assert_eq!(m.mac, Some(b"AA:BB".to_vec()));
    assert!(m.locate);
    assert!(!m.sleep);
    assert_eq!(m.power, Some(3250));
    assert_eq!(m.nameplate, Some(100));
    assert_eq!(m.pools.len(), 1);
    assert!(m.errors.is_empty());
}

#[test]
fn failed_reads_get_placeholders() {
    let mut m = fresh();
    let mut reads = reads_all_ok();
    reads.model = None;
    reads.mac = None;
    reads.hashrate = None;
    reads.locate = None;
    reads.temp = None;
    m.apply_reads(reads);
    assert_eq!(m.model, Some(b"Unknown".to_vec()));
    assert_eq!(m.mac, Some(b"Unknown".to_vec()));
    assert_eq!(m.hashrate, Some(0));
    assert_eq!(m.temp, None);
    assert!(!m.locate);
}

#[test]
fn empty_primary_pool_url_adds_the_synthetic_error() {
    let mut m = fresh();
    let mut reads = reads_all_ok();
    reads.pools = Some(vec![PoolEndpoint {
        url: Vec::new(),
        worker: b"w".to_vec(),
        password: None,
    }]);
    m.apply_reads(reads);
    assert_eq!(m.errors, vec![b"No pool set".to_vec()]);
}

#[test]
fn no_pools_at_all_become_three_placeholders() {
    let mut m = fresh();
    let mut reads = reads_all_ok();
    reads.pools = Some(Vec::new());
    m.apply_reads(reads);
    assert_eq!(m.pools.len(), 3);
    for p in &m.pools {
        assert!(p.url.is_empty());
        assert!(p.worker.is_empty());
        assert!(p.password.is_none());
    }
    assert!(m.errors.is_empty());
}

#[test]
fn a_successful_error_query_replaces_the_recorded_errors() {
    let mut m = fresh();
    let mut reads = reads_all_ok();
    reads.errors = Some(vec![b"fan stopped".to_vec(), b"chain dead".to_vec()]);
    m.apply_reads(reads);
    assert_eq!(m.errors, vec![b"fan stopped".to_vec(), b"chain dead".to_vec()]);
}

#[test]
fn auth_failure_marks_the_observation_and_nothing_else() {
    let mut m = fresh();
    m.record_auth_failure();
    assert_eq!(m.errors, vec![b"Failed to auth miner".to_vec()]);
    assert_eq!(m.ip, b"10.0.0.1".to_vec());
    assert!(m.model.is_none());
}

#[test]
fn the_event_carries_the_observation_and_the_position() {
    let mut m = fresh();
    m.set_make(b"Antminer".to_vec());
    m.apply_reads(reads_all_ok());
    let ev = m.into_event();
    assert_eq!(ev.rack, 2);
    assert_eq!(ev.row, 1);
    assert_eq!(ev.index, 3);
    assert_eq!(ev.miner.ip, b"10.0.0.1".to_vec());
    assert_eq!(ev.miner.make, Some(b"Antminer".to_vec()));
    assert_eq!(ev.miner.hashrate, Some(95));
}

#[test]
fn one_failing_device_still_lets_ten_settle_with_a_full_ratio() {
    let mut events = Vec::new();
    let mut tasks = Vec::new();
    for i in 0..10i64 {
        tasks.push(Task {
            place: Placement {
                ip: format!("10.0.0.{}", i).into_bytes(),
                can: 1,
                rack: 0,
                row: 0,
                index: i,
            },
            action: Action::Scan,
        });
    }
    let mut runner = JobRunner::new(tasks, b"scan".to_vec());
    for i in 0..10i64 {
        let mut m = Miner::default(format!("10.0.0.{}", i).into_bytes(), 0, 0, i, 1);
        if i == 7 {
            // this device's credentials all fail; its workflow still settles
            m.record_auth_failure();
        } else {
            m.apply_reads(reads_all_ok());
        }
        events.push(m.into_event());
        runner.record_completed();
    }
    assert_eq!(events.len(), 10);
    assert!(runner.is_finished());
    assert_eq!(runner.progress.done, 10);
    assert_eq!(runner.progress.ratio_permille(), 1000);
    assert!(events[7].miner.errors.contains(&b"Failed to auth miner".to_vec()));
    assert!(events[6].miner.errors.is_empty());
}
