use fleetjobs::pools::{build_endpoints, expand_worker, expand_worker_checked, ip_tail, model_slug};
use fleetjobs::config::Pool;
use fleetjobs::text::{
    ascii_lower, bytes_eq, contains_bytes, i64_to_dec, prefix_before, replace_all, u64_to_dec,
};

#[test]
fn worker_template_expands_all_placeholders() {
    let out = expand_worker(
        &b"{can}.{model}.{ip}".to_vec(),
        24,
        &b"S19-88".to_vec(),
        &b"10.20.3.4".to_vec(),
    );
    assert_eq!(out, b"24.s19.3x4".to_vec());
}

#[test]
fn worker_template_without_placeholders_is_unchanged() {
    let out = expand_worker(&b"plainworker".to_vec(), 7, &b"S19".to_vec(), &b"1.2".to_vec());
    assert_eq!(out, b"plainworker".to_vec());
}

#[test]
fn worker_template_repeats_a_placeholder() {
    let out = expand_worker(&b"{can}-{can}".to_vec(), 3, &b"M".to_vec(), &b"9.8".to_vec());
    assert_eq!(out, b"3-3".to_vec());
}

#[test]
fn checked_expansion_rejects_an_address_without_dots() {
    let out = expand_worker_checked(&b"{ip}".to_vec(), 1, &b"S19".to_vec(), &b"localhost".to_vec());
    assert!(out.is_none());
}

#[test]
fn checked_expansion_accepts_a_dotted_address() {
    let out = expand_worker_checked(&b"{ip}".to_vec(), 1, &b"S19".to_vec(), &b"10.0.3.7".to_vec());
    assert_eq!(out.unwrap(), b"3x7".to_vec());
}

#[test]
fn model_slug_truncates_at_hyphen_and_lowercases() {
    assert_eq!(model_slug(&b"S19-88".to_vec()), b"s19".to_vec());
    assert_eq!(model_slug(&b"S9".to_vec()), b"s9".to_vec());
    assert_eq!(model_slug(&b"WhatsMiner-M30S-plus".to_vec()), b"whatsminer".to_vec());
}

#[test]
fn ip_tail_joins_last_two_octets() {
    assert_eq!(ip_tail(&b"10.20.3.4".to_vec()), b"3x4".to_vec());
    assert_eq!(ip_tail(&b"1.2".to_vec()), b"1x2".to_vec());
}

#[test]
fn endpoints_share_worker_and_password() {
    let tpl = Pool {
        name: b"main".to_vec(),
        url1: b"stratum+tcp://a:1".to_vec(),
        url2: b"stratum+tcp://b:2".to_vec(),
        url3: b"".to_vec(),
        username: b"{can}x{ip}".to_vec(),
        password: Some(b"x".to_vec()),
    };
    let eps = build_endpoints(&tpl, &b"24x3x4".to_vec());
    assert_eq!(eps.len(), 3);
    assert_eq!(eps[0].url, b"stratum+tcp://a:1".to_vec());
    assert_eq!(eps[1].url, b"stratum+tcp://b:2".to_vec());
    assert_eq!(eps[2].url, b"".to_vec());
    for ep in &eps {
        assert_eq!(ep.worker, b"24x3x4".to_vec());
        assert_eq!(ep.password, Some(b"x".to_vec()));
    }
}

#[test]
fn replace_all_rewrites_every_occurrence() {
    let out = replace_all(&b"abab".to_vec(), &b"ab".to_vec(), &b"c".to_vec());
    assert_eq!(out, b"cc".to_vec());
    let out = replace_all(&b"aaa".to_vec(), &b"aa".to_vec(), &b"b".to_vec());
    assert_eq!(out, b"ba".to_vec());
    let out = replace_all(&b"xyz".to_vec(), &b"q".to_vec(), &b"r".to_vec());
    assert_eq!(out, b"xyz".to_vec());
}

#[test]
fn decimal_renderings_are_exact() {
    assert_eq!(u64_to_dec(0), b"0".to_vec());
    assert_eq!(u64_to_dec(1234), b"1234".to_vec());
    assert_eq!(i64_to_dec(-5), b"-5".to_vec());
    assert_eq!(i64_to_dec(24), b"24".to_vec());
    assert_eq!(i64_to_dec(i64::MIN), b"-9223372036854775808".to_vec());
}

#[test]
fn byte_helpers_behave() {
    assert!(bytes_eq(&b"abc".to_vec(), &b"abc".to_vec()));
    assert!(!bytes_eq(&b"abc".to_vec(), &b"abd".to_vec()));
    assert!(contains_bytes(&b"fan stopped".to_vec(), &b"fan".to_vec()));
    assert!(contains_bytes(&b"anything".to_vec(), &b"".to_vec()));
    assert!(!contains_bytes(&b"abc".to_vec(), &b"abcd".to_vec()));
    assert_eq!(ascii_lower(&b"AbC-9".to_vec()), b"abc-9".to_vec());
    assert_eq!(prefix_before(&b"S19-88".to_vec(), b'-'), b"S19".to_vec());
    assert_eq!(prefix_before(&b"S19".to_vec(), b'-'), b"S19".to_vec());
}
