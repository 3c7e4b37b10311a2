use remus::StateManager;

#[test]
fn test_state_manager() {
    let mut manager = StateManager::new(5);

    let key = "test_key".to_string();
    let delta = b"initial state".to_vec();
    let version = manager.apply_delta(key.clone(), delta).unwrap();

    let state = manager.get_state(&key).unwrap();
    assert_eq!(state, b"initial state".to_vec());

    assert!(manager.validate_version(&version));
}

#[test]
fn test_version_limit() {
    let mut manager = StateManager::new(2);
    let key = "test_key".to_string();

    for i in 0..3 {
        let delta = format!("state {}", i).into_bytes();
        manager.apply_delta(key.clone(), delta).unwrap();
    }

    let versions = manager.get_version_history();
    assert_eq!(versions.len(), 2);
    assert_eq!(versions[0].version, 2);
    assert_eq!(versions[1].version, 3);
}

#[test]
fn deltas_append_and_checksums_are_sha256() {
    let mut manager = StateManager::new(4);
    manager.apply_delta_at("k".to_string(), b"ab".to_vec(), 10).unwrap();
    let v = manager.apply_delta_at("k".to_string(), b"c".to_vec(), 11).unwrap();
    assert_eq!(manager.get_state("k").unwrap(), b"abc".to_vec());
    assert_eq!(v.version, 2);
    assert_eq!(v.timestamp, 11);
    // SHA-256("abc")
    assert_eq!(v.checksum[..4], [0xba, 0x78, 0x16, 0xbf]);
    assert_eq!(v.checksum[28..], [0xf2, 0x00, 0x15, 0xad]);
}

#[test]
fn forged_version_is_rejected_and_clear_empties() {
    let mut manager = StateManager::new(4);
    let mut v = manager.apply_delta_at("k".to_string(), b"x".to_vec(), 1).unwrap();
    manager.apply_delta_at("other".to_string(), b"y".to_vec(), 2).unwrap();
    assert_eq!(manager.get_state("other").unwrap(), b"y".to_vec());
    assert_eq!(manager.get_state("k").unwrap(), b"x".to_vec());
    assert!(manager.validate_version(&v));
    v.checksum[0] ^= 1;
    assert!(!manager.validate_version(&v));
    manager.clear_state();
    assert!(manager.get_state("k").is_none());
    assert!(manager.get_version_history().is_empty());
}

#[test]
fn zero_cap_keeps_no_versions() {
    let mut manager = StateManager::new(0);
    manager.apply_delta_at("k".to_string(), b"x".to_vec(), 1).unwrap();
    assert!(manager.get_version_history().is_empty());
}
