use zks_tunnel::replay_protection::ReplayProtection;

#[test]
fn test_fresh_nonce() {
    let mut rp = ReplayProtection::new();
    let nonce = [1u8; 12];

    assert!(rp.check_and_record(&nonce));
    assert_eq!(rp.len(), 1);
}

#[test]
fn test_replay_detection() {
    let mut rp = ReplayProtection::new();
    let nonce = [2u8; 12];

    // First time should succeed
    assert!(rp.check_and_record(&nonce));

    // Second time should fail (replay)
    assert!(!rp.check_and_record(&nonce));
}

#[test]
fn test_different_nonces() {
    let mut rp = ReplayProtection::new();
    let nonce1 = [1u8; 12];
    let nonce2 = [2u8; 12];

    assert!(rp.check_and_record(&nonce1));
    assert!(rp.check_and_record(&nonce2));
    assert_eq!(rp.len(), 2);
}

#[test]
fn test_cleanup() {
    // 100 ms of life, and a second nonce 300 ms after the first.
    let mut rp = ReplayProtection::with_max_age_nanos(100_000_000);
    let nonce = [3u8; 12];

    rp.check_and_record_at(&nonce, 0);
    assert_eq!(rp.len(), 1);

    let nonce2 = [4u8; 12];
    rp.check_and_record_at(&nonce2, 300_000_000);

    // Old nonce should be cleaned up
    assert_eq!(rp.len(), 1);
    assert!(rp.check_and_record_at(&nonce, 300_000_001));
}

#[test]
fn cleanup_waits_for_half_the_window() {
    // max_age 100 ms: old nonces are dropped when more than 50 ms have passed.
    let mut rp = ReplayProtection::with_max_age_nanos(100_000_000);
    assert!(rp.check_and_record_at(&[1u8; 12], 0));
    assert!(rp.check_and_record_at(&[2u8; 12], 50_000_000));
    assert_eq!(rp.len(), 2);
    // 50_000_001 ns after the last cleanup (at 0): due, but nothing is 100 ms old.
    assert!(!rp.check_and_record_at(&[1u8; 12], 50_000_001));
    assert_eq!(rp.len(), 2);
    // At 100 ms the first nonce is exactly max_age old and goes; the second stays.
    rp.cleanup_old_nonces_at(100_000_000);
    assert_eq!(rp.len(), 1);
    assert!(!rp.check_and_record_at(&[2u8; 12], 100_000_000));
    assert!(rp.check_and_record_at(&[1u8; 12], 100_000_000));
}

#[test]
fn default_window_is_five_minutes_and_a_minute_caps_the_interval() {
    let mut rp = ReplayProtection::default();
    assert!(rp.is_empty());
    assert!(rp.check_and_record_at(&[9u8; 12], 0));
    // 30 s have passed: not more than half a minute, nothing is cleaned.
    assert!(!rp.check_and_record_at(&[9u8; 12], 30_000_000_000));
    // 299.999 s: cleanup runs, the nonce is younger than 300 s and stays.
    assert!(!rp.check_and_record_at(&[9u8; 12], 299_999_000_000));
    // 300 s: the nonce is as old as the window and is fresh again.
    assert!(rp.check_and_record_at(&[9u8; 12], 330_000_000_001));
    assert!(!rp.is_empty());
}

#[test]
fn keys_tell_nonces_apart() {
    let mut a = [0u8; 12];
    let mut b = [0u8; 12];
    a[11] = 1;
    b[0] = 1;
    assert_eq!(ReplayProtection::key_of(&a), 1);
    assert_eq!(ReplayProtection::key_of(&b), 1u128 << 88);
    assert_eq!(ReplayProtection::key_of(&[0xFF; 12]), (1u128 << 96) - 1);
    let mut rp = ReplayProtection::new();
    assert!(rp.check_and_record(&a));
    assert!(rp.check_and_record(&b));
    assert!(!rp.check_and_record(&a));
}

#[test]
fn a_clock_that_runs_backwards_ages_nothing() {
    let mut rp = ReplayProtection::with_max_age_nanos(10);
    assert!(rp.check_and_record_at(&[5u8; 12], 1_000));
    assert!(!rp.check_and_record_at(&[5u8; 12], 500));
    assert_eq!(rp.len(), 1);
}

#[test]
fn a_window_given_as_a_span_is_that_many_nanoseconds() {
    let mut rp = ReplayProtection::with_max_age(std::time::Duration::from_millis(100));
    assert!(rp.is_empty());
    assert!(rp.check_and_record_at(&[7u8; 12], 0));
    // One nanosecond before the window ends the nonce is still known.
    assert!(!rp.check_and_record_at(&[7u8; 12], 99_999_999));
    // At the end of the window it is forgotten.
    rp.cleanup_old_nonces_at(100_000_000);
    assert!(rp.is_empty());
}
