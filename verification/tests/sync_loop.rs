use ntp_sync::sync::FALLBACK_INTERVAL_SECS;
use ntp_sync::sync::next_interval;

#[test]
fn success_restores_configured_interval() {
    assert_eq!(next_interval(600, true), 600);
    assert_eq!(next_interval(3600, true), 3600);
}

#[test]
fn failure_shortens_interval_to_ten_seconds() {
    assert_eq!(next_interval(600, false), 10);
    assert_eq!(next_interval(3600, false), 10);
    assert_eq!(FALLBACK_INTERVAL_SECS, 10);
}
