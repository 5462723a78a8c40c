use fleetjobs::auth::{AuthAttempt, AuthEntry, Credential, MinerAuth};

fn cred(u: &[u8], p: &[u8]) -> Credential {
    Credential { username: u.to_vec(), password: p.to_vec() }
}

#[test]
fn fallback_succeeds_on_the_second_pair_and_never_tries_the_third() {
    let candidates = vec![
        cred(b"admin", b"admin"),
        cred(b"root", b"root"),
        cred(b"user", b"pass"),
    ];
    let mut attempt = AuthAttempt::new(candidates);

    assert!(attempt.pending());
    assert_eq!(attempt.current().username, b"admin".to_vec());
    assert_eq!(attempt.current().password, b"admin".to_vec());
    attempt.record(false);

    assert!(attempt.pending());
    assert_eq!(attempt.current().username, b"root".to_vec());
    assert_eq!(attempt.current().password, b"root".to_vec());
    attempt.record(true);

    assert!(!attempt.pending());
    assert!(attempt.succeeded);
    assert_eq!(attempt.next, 1);
    assert!(!attempt.exhausted());
}

#[test]
fn fallback_exhausts_when_every_pair_fails() {
    let mut attempt = AuthAttempt::new(vec![cred(b"a", b"1"), cred(b"b", b"2")]);
    attempt.record(false);
    attempt.record(false);
    assert!(!attempt.pending());
    assert!(attempt.exhausted());
    assert!(!attempt.succeeded);
}

#[test]
fn fallback_with_no_candidates_is_exhausted_at_once() {
    let attempt = AuthAttempt::new(Vec::new());
    assert!(!attempt.pending());
    assert!(attempt.exhausted());
}

#[test]
fn credential_set_serves_the_matching_vendor_in_order() {
    let set = MinerAuth {
        entries: vec![
            AuthEntry { make: b"Antminer".to_vec(), creds: vec![cred(b"root", b"root")] },
            AuthEntry {
                make: b"Whatsminer".to_vec(),
                creds: vec![cred(b"admin", b"admin"), cred(b"super", b"super")],
            },
        ],
    };
    let creds = set.get(&b"Whatsminer".to_vec());
    assert_eq!(creds.len(), 2);
    assert_eq!(creds[0].username, b"admin".to_vec());
    assert_eq!(creds[1].username, b"super".to_vec());
}

#[test]
fn credential_set_serves_nothing_for_an_unknown_vendor() {
    let set = MinerAuth {
        entries: vec![AuthEntry { make: b"Antminer".to_vec(), creds: vec![cred(b"r", b"r")] }],
    };
    assert_eq!(set.get(&b"Avalon".to_vec()).len(), 0);
    assert_eq!(MinerAuth::new().get(&b"Antminer".to_vec()).len(), 0);
}
