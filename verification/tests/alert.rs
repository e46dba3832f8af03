use azeroth_dashboard::alert::{AlertManager, ALERT_COOLDOWN_NANOS};

#[test]
fn new_manager_has_not_alerted_and_waits_five_minutes() {
    let m = AlertManager::new();
    assert!(m.last_alert_time.is_none());
    assert_eq!(m.cooldown, 300_000_000_000);
    assert_eq!(ALERT_COOLDOWN_NANOS, 300 * 1_000_000_000);
}

#[test]
fn first_alert_goes_out_at_any_time() {
    let mut m = AlertManager::new();
    assert!(m.should_alert_at(0));
    assert_eq!(m.last_alert_time, Some(0));
    let mut m = AlertManager::new();
    assert!(m.should_alert_at(u128::MAX));
    assert_eq!(m.last_alert_time, Some(u128::MAX));
}

#[test]
fn alerts_within_cooldown_are_refused_and_change_nothing() {
    let mut m = AlertManager::new();
    assert!(m.should_alert_at(1_000));
    assert!(!m.should_alert_at(1_000));
    assert!(!m.should_alert_at(1_000 + ALERT_COOLDOWN_NANOS - 1));
    assert_eq!(m.last_alert_time, Some(1_000));
    assert_eq!(m.cooldown, ALERT_COOLDOWN_NANOS);
}

#[test]
fn alert_goes_out_once_cooldown_has_passed() {
    let mut m = AlertManager::new();
    assert!(m.should_alert_at(1_000));
    assert!(m.should_alert_at(1_000 + ALERT_COOLDOWN_NANOS));
    assert_eq!(m.last_alert_time, Some(1_000 + ALERT_COOLDOWN_NANOS));
    assert!(!m.should_alert_at(1_000 + ALERT_COOLDOWN_NANOS + 5));
}

#[test]
fn clock_reading_before_last_alert_counts_as_no_time() {
    let mut m = AlertManager::new();
    assert!(m.should_alert_at(10 * ALERT_COOLDOWN_NANOS));
    assert!(!m.should_alert_at(0));
    assert_eq!(m.last_alert_time, Some(10 * ALERT_COOLDOWN_NANOS));
}

#[test]
fn zero_cooldown_never_refuses_forward_in_time() {
    let mut m = AlertManager::new();
    m.cooldown = 0;
    assert!(m.should_alert_at(5));
    assert!(m.should_alert_at(5));
    assert!(m.should_alert_at(6));
}

#[test]
fn clock_driven_alert_fires_once_then_waits() {
    let mut m = AlertManager::new();
    assert!(m.should_alert());
    assert!(m.last_alert_time.is_some());
    assert!(!m.should_alert());
}

#[test]
fn alerts_in_a_run_are_a_cooldown_apart() {
    let mut m = AlertManager::new();
    let step = ALERT_COOLDOWN_NANOS / 7;
    let mut fired_at: Vec<u128> = Vec::new();
    for i in 0..60u128 {
        let now = i * step;
        if m.should_alert_at(now) {
            fired_at.push(now);
        }
    }
    assert!(fired_at.len() > 1);
    for w in fired_at.windows(2) {
        assert!(w[1] - w[0] >= ALERT_COOLDOWN_NANOS);
    }
}

#[test]
fn clock_driven_calls_keep_the_start_instant() {
    let mut m = AlertManager::new();
    let started = m.started;
    m.should_alert();
    m.should_alert();
    assert_eq!(m.started, started);
}
