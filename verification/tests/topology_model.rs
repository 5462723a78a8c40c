use fleetjobs::config::{Config, Pools};
use fleetjobs::topology::{Can, DbCan, DbMiner, DbRack, enumerate_can, find_device, place_in_rows};

fn miner(rack_id: i64, ip: &[u8], row: i64, index: i64) -> DbMiner {
    DbMiner { id: 0, rack_id, ip: ip.to_vec(), row, index }
}

#[test]
fn devices_bucket_into_their_rows_in_order() {
    let flat = vec![
        miner(1, b"a", 0, 0),
        miner(1, b"b", 2, 0),
        miner(1, b"c", 0, 1),
    ];
    let rows = place_in_rows(3, flat);
    assert_eq!(rows.len(), 3);
    assert_eq!(rows[0].len(), 2);
    assert_eq!(rows[0][0].ip, b"a".to_vec());
    assert_eq!(rows[0][1].ip, b"c".to_vec());
    assert_eq!(rows[1].len(), 0);
    assert_eq!(rows[2].len(), 1);
    assert_eq!(rows[2][0].ip, b"b".to_vec());
}

#[test]
fn a_rack_fills_its_grid_from_a_flat_list() {
    let mut rack = DbRack {
        id: 5,
        can_id: 1,
        name: b"R5".to_vec(),
        index: 2,
        width: 2,
        height: 2,
        miners: Vec::new(),
    };
    rack.place_miners(vec![miner(5, b"x", 1, 0), miner(5, b"y", 0, 1)]);
    assert_eq!(rack.miners.len(), 2);
    assert_eq!(rack.miners[0][0].ip, b"y".to_vec());
    assert_eq!(rack.miners[1][0].ip, b"x".to_vec());
    assert_eq!(rack.index, 2);
}

fn two_rack_can() -> DbCan {
    DbCan {
        id: 7,
        name: b"A7".to_vec(),
        num: 3,
        racks: vec![
            DbRack {
                id: 1,
                can_id: 7,
                name: b"R0".to_vec(),
                index: 0,
                width: 2,
                height: 2,
                miners: vec![
                    vec![miner(1, b"10.0.0.1", 0, 0), miner(1, b"10.0.0.2", 0, 1)],
                    vec![miner(1, b"10.0.0.3", 1, 1)],
                ],
            },
            DbRack {
                id: 2,
                can_id: 7,
                name: b"R1".to_vec(),
                index: 1,
                width: 1,
                height: 1,
                miners: vec![vec![miner(2, b"10.0.1.1", 0, 0)]],
            },
        ],
    }
}

#[test]
fn enumeration_walks_rack_then_row_then_column() {
    let places = enumerate_can(&two_rack_can());
    let keys: Vec<(i64, i64, i64, Vec<u8>)> =
        places.iter().map(|p| (p.rack, p.row, p.index, p.ip.clone())).collect();
    assert_eq!(
        keys,
        vec![
            (0, 0, 0, b"10.0.0.1".to_vec()),
            (0, 0, 1, b"10.0.0.2".to_vec()),
            (0, 1, 1, b"10.0.0.3".to_vec()),
            (1, 0, 0, b"10.0.1.1".to_vec()),
        ]
    );
    for p in &places {
        assert_eq!(p.can, 3);
    }
}

#[test]
fn find_device_resolves_an_address_to_its_slot() {
    let cans = vec![two_rack_can()];
    let p = find_device(&cans, &b"10.0.0.3".to_vec()).unwrap();
    assert_eq!(p.can, 3);
    assert_eq!(p.rack, 0);
    assert_eq!(p.row, 1);
    assert_eq!(p.index, 1);
    assert!(find_device(&cans, &b"10.9.9.9".to_vec()).is_none());
}

#[test]
fn a_presentation_can_keeps_the_record_fields() {
    let can = Can::from(two_rack_can());
    assert_eq!(can.id, 7);
    assert_eq!(can.num, 3);
    assert_eq!(can.name, b"A7".to_vec());
}

#[test]
fn fresh_settings_hold_the_documented_defaults() {
    let c = Config::new();
    assert_eq!(c.refreshRate, 30);
    assert_eq!(c.maxConnections, 500);
    assert_eq!(c.connectionTimeout, 10);
    assert_eq!(c.readTimeout, 15);
}

#[test]
fn a_fresh_pool_store_is_empty() {
    assert!(Pools::new().pools.is_empty());
}
