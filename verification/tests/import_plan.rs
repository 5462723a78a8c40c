use fleetjobs::frontier::{
    ImportError, RackRecord, RecordKind, SitemapRecord, plan_import,
};

fn group(name: &[u8], num: i64) -> RackRecord {
    RackRecord {
        group_name: None,
        kind: RecordKind::Group,
        name: name.to_vec(),
        row: num,
        column: 0,
        rack_width: None,
        rack_height: None,
    }
}

fn rack(group_name: &[u8], name: &[u8], column: i64, w: i64, h: i64) -> RackRecord {
    RackRecord {
        group_name: Some(group_name.to_vec()),
        kind: RecordKind::Rack,
        name: name.to_vec(),
        row: 0,
        column,
        rack_width: Some(w),
        rack_height: Some(h),
    }
}

fn device(rack: &[u8], ip: &[u8], row: i64, index: i64) -> SitemapRecord {
    SitemapRecord {
        pickaxe_id: b"p1".to_vec(),
        miner_ip: ip.to_vec(),
        miner_port: 4028,
        rack: rack.to_vec(),
        row,
        index,
    }
}

#[test]
fn records_become_a_resolved_plan() {
    let layout = vec![
        group(b"CanA", 1),
        rack(b"CanA", b"R0", 0, 2, 3),
        group(b"CanB", 2),
        rack(b"CanB", b"R1", 1, 4, 5),
    ];
    let sitemap = vec![device(b"R0", b"10.0.0.1", 0, 0), device(b"R1", b"10.0.1.1", 2, 3)];
    let plan = plan_import(layout, sitemap).unwrap();
    assert_eq!(plan.cans.len(), 2);
    assert_eq!(plan.cans[0].name, b"CanA".to_vec());
    assert_eq!(plan.cans[0].num, 1);
    assert_eq!(plan.cans[1].num, 2);
    assert_eq!(plan.racks.len(), 2);
    assert_eq!(plan.racks[0].can_name, b"CanA".to_vec());
    assert_eq!(plan.racks[0].width, 2);
    assert_eq!(plan.racks[0].height, 3);
    assert_eq!(plan.racks[1].index, 1);
    assert_eq!(plan.miners.len(), 2);
    assert_eq!(plan.miners[0].rack_name, b"R0".to_vec());
    assert_eq!(plan.miners[1].ip, b"10.0.1.1".to_vec());
    assert_eq!(plan.miners[1].row, 2);
}

#[test]
fn a_rack_without_a_group_name_is_rejected() {
    let mut r = rack(b"CanA", b"R0", 0, 2, 3);
    r.group_name = None;
    let out = plan_import(vec![group(b"CanA", 1), r], Vec::new());
    assert!(matches!(out, Err(ImportError::MissingGroupName)));
}

#[test]
fn a_rack_in_an_unknown_group_is_rejected() {
    let out = plan_import(vec![group(b"CanA", 1), rack(b"CanZ", b"R0", 0, 2, 3)], Vec::new());
    assert!(matches!(out, Err(ImportError::UnknownGroup)));
}

#[test]
fn a_rack_without_dimensions_is_rejected() {
    let mut r = rack(b"CanA", b"R0", 0, 2, 3);
    r.rack_height = None;
    let out = plan_import(vec![group(b"CanA", 1), r], Vec::new());
    assert!(matches!(out, Err(ImportError::MissingDimensions)));
}

#[test]
fn a_device_in_an_unknown_rack_is_rejected() {
    let layout = vec![group(b"CanA", 1), rack(b"CanA", b"R0", 0, 2, 3)];
    let out = plan_import(layout, vec![device(b"R9", b"10.0.0.1", 0, 0)]);
    assert!(matches!(out, Err(ImportError::UnknownRack)));
}

#[test]
fn an_empty_import_plans_nothing() {
    let plan = plan_import(Vec::new(), Vec::new()).unwrap();
    assert!(plan.cans.is_empty());
    assert!(plan.racks.is_empty());
    assert!(plan.miners.is_empty());
}
