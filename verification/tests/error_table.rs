use fleetjobs::errors::{ErrorRule, ErrorTable};

fn rule(make: &[u8], pattern: &[u8], message: &[u8]) -> ErrorRule {
    ErrorRule { make: make.to_vec(), pattern: pattern.to_vec(), message: message.to_vec() }
}

fn table() -> ErrorTable {
    ErrorTable::with_catchall(vec![
        rule(b"Antminer", b"fan", b"Fan failure"),
        rule(b"Antminer", b"chain", b"Hash board failure"),
        rule(b"", b"temp", b"Overtemperature"),
    ])
}

#[test]
fn the_first_matching_rule_wins() {
    let t = table();
    let m = t.translate(&b"Antminer".to_vec(), &b"ERR fan 2 stopped".to_vec());
    assert_eq!(m, Some(b"Fan failure".to_vec()));
}

#[test]
fn a_vendor_bound_rule_skips_other_vendors() {
    let t = table();
    let m = t.translate(&b"Whatsminer".to_vec(), &b"fan stopped".to_vec());
    assert_eq!(m, Some(b"Unknown error".to_vec()));
}

#[test]
fn a_vendorless_rule_applies_to_every_vendor() {
    let t = table();
    let m = t.translate(&b"Whatsminer".to_vec(), &b"temp high".to_vec());
    assert_eq!(m, Some(b"Overtemperature".to_vec()));
}

#[test]
fn the_catchall_reads_unknown_codes() {
    let t = table();
    let m = t.translate(&b"Antminer".to_vec(), &b"0xDEAD".to_vec());
    assert_eq!(m, Some(b"Unknown error".to_vec()));
}

#[test]
fn an_earlier_rule_shadows_a_later_one() {
    let t = ErrorTable::with_catchall(vec![
        rule(b"", b"fan", b"First reading"),
        rule(b"", b"fan", b"Second reading"),
    ]);
    let m = t.translate(&b"X".to_vec(), &b"fan".to_vec());
    assert_eq!(m, Some(b"First reading".to_vec()));
}

#[test]
fn a_table_without_rules_translates_nothing() {
    let t = ErrorTable { rules: Vec::new() };
    assert!(t.translate(&b"X".to_vec(), &b"fan".to_vec()).is_none());
}
