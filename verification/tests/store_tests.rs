use tg_unblock::text::parse_u64;
use tg_unblock::tracker::{ConnectionTracker, MAX_CONNECTIONS_PER_IP};
use tg_unblock::trusted::{TrustedIps, NANOS_PER_SEC};

const MIN: i128 = 60 * NANOS_PER_SEC;

#[test]
fn trusted_for_ten_minutes() {
    let mut t = TrustedIps::new();
    assert!(!t.is_trusted_at("10.0.0.1", 0));
    t.record_connection_at("10.0.0.1", 1000);
    assert!(t.is_trusted_at("10.0.0.1", 1000));
    assert!(t.is_trusted_at("10.0.0.1", 1000 + 10 * MIN - 1));
    assert!(!t.is_trusted_at("10.0.0.1", 1000 + 10 * MIN));
    assert!(!t.is_trusted_at("10.0.0.1", 999));
    assert!(!t.is_trusted_at("10.0.0.2", 1000));
}

#[test]
fn reconnect_refreshes_trust() {
    let mut t = TrustedIps::new();
    t.record_connection_at("10.0.0.1", 0);
    t.record_connection_at("10.0.0.1", 9 * MIN);
    assert!(t.is_trusted_at("10.0.0.1", 15 * MIN));
    assert_eq!(t.get_ip_stats().len(), 1);
}

#[test]
fn cleanup_drops_only_stale_records() {
    let mut t = TrustedIps::new();
    t.record_connection_at("a", 0);
    t.record_connection_at("b", 5 * MIN);
    t.record_connection_at("c", 12 * MIN);
    t.cleanup_expired_at(12 * MIN);
    let mut stats = t.get_ip_stats();
    stats.sort();
    assert_eq!(stats, vec![("b".to_string(), 1), ("c".to_string(), 1)]);
    assert!(!t.is_trusted_at("a", 12 * MIN));
    assert!(t.is_trusted_at("b", 12 * MIN));
}

#[test]
fn expiry_setting() {
    let t = TrustedIps::from_expiry_setting(Some("30".to_string()));
    let mut t = t;
    t.record_connection_at("x", 0);
    assert!(t.is_trusted_at("x", 30 * NANOS_PER_SEC - 1));
    assert!(!t.is_trusted_at("x", 30 * NANOS_PER_SEC));

    let mut d = TrustedIps::from_expiry_setting(Some("soon".to_string()));
    d.record_connection_at("x", 0);
    assert!(d.is_trusted_at("x", 10 * MIN - 1));
    assert!(!d.is_trusted_at("x", 10 * MIN));

    let mut u = TrustedIps::from_expiry_setting(None);
    u.record_connection_at("x", 0);
    assert!(u.is_trusted_at("x", 10 * MIN - 1));
}

#[test]
fn decimal_reading() {
    assert_eq!(parse_u64("600"), Some(600));
    assert_eq!(parse_u64("+7"), Some(7));
    assert_eq!(parse_u64("0"), Some(0));
    assert_eq!(parse_u64("18446744073709551615"), Some(u64::MAX));
    assert_eq!(parse_u64("18446744073709551616"), None);
    assert_eq!(parse_u64(""), None);
    assert_eq!(parse_u64("+"), None);
    assert_eq!(parse_u64("-1"), None);
    assert_eq!(parse_u64("1 "), None);
    assert_eq!(parse_u64("٣"), None);
    for s in ["1", "+42", "007", "99999999999999999999", "x"] {
        assert_eq!(parse_u64(s), s.parse::<u64>().ok());
    }
}

#[test]
fn tracker_caps_per_ip() {
    let mut tr = ConnectionTracker::new();
    for i in 0..150i128 {
        assert!(tr.try_acquire_at("10.0.0.1", i));
    }
    assert_eq!(tr.connection_count("10.0.0.1"), MAX_CONNECTIONS_PER_IP as usize);
    assert_eq!(tr.connection_count("10.0.0.2"), 0);
    assert!(tr.try_acquire_at("10.0.0.2", 0));
    assert_eq!(tr.connection_count("10.0.0.2"), 1);
}

#[test]
fn tracker_release() {
    let mut tr = ConnectionTracker::new();
    tr.try_acquire_at("a", 1);
    tr.try_acquire_at("a", 2);
    assert_eq!(tr.connection_count("a"), 2);
    tr.release("a");
    assert_eq!(tr.connection_count("a"), 1);
    tr.release("a");
    assert_eq!(tr.connection_count("a"), 0);
    tr.release("a");
    assert_eq!(tr.connection_count("a"), 0);
    tr.release("never");
    assert_eq!(tr.connection_count("never"), 0);
}

#[test]
fn times_before_the_epoch() {
    let mut t = TrustedIps::new();
    t.record_connection_at("x", -5 * MIN);
    assert!(t.is_trusted_at("x", 0));
    assert!(!t.is_trusted_at("x", 5 * MIN));
    assert!(!t.is_trusted_at("x", -6 * MIN));
    t.record_connection_at("y", i128::MIN);
    assert!(!t.is_trusted_at("y", i128::MAX));
}
