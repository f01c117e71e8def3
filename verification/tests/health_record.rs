use meow::health::{DelayHistory, ProxyHealth, ProxyState, MAX_HISTORY};
use meow::timestamp::{now_stamp, stamp, YEAR_TEN_THOUSAND, YEAR_ZERO};

fn delays(health: &ProxyHealth) -> Vec<u16> {
    health.delay_history().iter().map(|h| h.delay).collect()
}

#[test]
fn a_fresh_proxy_is_alive_without_history() {
    for health in [ProxyHealth::new(), ProxyHealth::default()] {
        assert!(health.alive());
        assert_eq!(health.last_delay(), 0);
        assert!(health.delay_history().is_empty());
        let state = health.state();
        assert!(state.alive);
        assert!(state.history.is_empty());
    }
}

#[test]
fn a_measurement_is_read_back() {
    let mut health = ProxyHealth::new();
    health.record_delay_at("t1".to_string(), 120);
    assert_eq!(health.last_delay(), 120);
    assert!(health.alive());
    health.record_delay_at("t2".to_string(), 0);
    assert_eq!(health.last_delay(), 0);
    assert!(!health.alive());
    let list = health.delay_history();
    assert_eq!(list.len(), 2);
    assert_eq!((list[0].time.as_str(), list[0].delay), ("t1", 120));
    assert_eq!((list[1].time.as_str(), list[1].delay), ("t2", 0));
}

#[test]
fn the_history_keeps_the_newest_ten_in_order() {
    let mut health = ProxyHealth::new();
    for d in 1..=25u16 {
        health.record_delay_at(d.to_string(), d);
        assert!(health.delay_history().len() <= MAX_HISTORY);
    }
    assert_eq!(delays(&health), vec![16, 17, 18, 19, 20, 21, 22, 23, 24, 25]);
    assert_eq!(health.delay_history()[0].time, "16");
}

#[test]
fn the_eleventh_record_drops_the_first() {
    let mut health = ProxyHealth::new();
    for d in 1..=10u16 {
        health.record_delay_at(String::new(), d);
    }
    assert_eq!(delays(&health), vec![1, 2, 3, 4, 5, 6, 7, 8, 9, 10]);
    health.record_delay_at(String::new(), 11);
    assert_eq!(delays(&health), vec![2, 3, 4, 5, 6, 7, 8, 9, 10, 11]);
}

#[test]
fn setting_liveness_leaves_the_history() {
    let mut health = ProxyHealth::new();
    health.record_delay_at("t".to_string(), 7);
    health.set_alive(false);
    assert!(!health.alive());
    assert_eq!(health.last_delay(), 7);
    assert_eq!(delays(&health), vec![7]);
    health.set_alive(true);
    assert!(health.alive());
}

#[test]
fn the_state_is_a_snapshot() {
    let mut health = ProxyHealth::new();
    health.record_delay_at("t".to_string(), 0);
    let state: ProxyState = health.state();
    health.record_delay_at("u".to_string(), 5);
    assert!(!state.alive);
    assert_eq!(state.history.len(), 1);
    let copy = state.clone();
    assert_eq!(copy.alive, state.alive);
    assert_eq!(copy.history[0].time, "t");
    let entry: DelayHistory = copy.history[0].clone();
    assert_eq!(entry.delay, 0);
}

#[test]
fn a_measurement_made_now_carries_a_timestamp() {
    let mut health = ProxyHealth::new();
    health.record_delay(42);
    let list = health.delay_history();
    assert_eq!(list.len(), 1);
    assert_eq!(list[0].delay, 42);
    let time = list[0].time.as_bytes();
    assert!(time.len() >= 20);
    assert_eq!((time[4], time[10], time[time.len() - 1]), (b'-', b'T', b'Z'));
    assert!(health.alive());
}

#[test]
fn timestamps_are_rfc3339_in_utc() {
    assert_eq!(stamp(0), "1970-01-01T00:00:00Z");
    assert_eq!(stamp(482_196_050_520_000_000), "1985-04-12T23:20:50.52Z");
    assert_eq!(stamp(1_546_300_800_000_000_000), "2019-01-01T00:00:00Z");
    assert_eq!(stamp(1_546_300_800_000_000_001), "2019-01-01T00:00:00.000000001Z");
    assert_eq!(stamp(-1), "1969-12-31T23:59:59.999999999Z");
}

#[test]
fn timestamps_end_with_the_four_digit_years() {
    assert_eq!(stamp(YEAR_ZERO), "0000-01-01T00:00:00Z");
    assert_eq!(stamp(YEAR_ZERO - 1), "");
    assert_eq!(stamp(YEAR_TEN_THOUSAND - 1), "9999-12-31T23:59:59.999999999Z");
    assert_eq!(stamp(YEAR_TEN_THOUSAND), "");
    assert_eq!(stamp(i128::MAX), "");
    assert_eq!(stamp(i128::MIN), "");
}

#[test]
fn the_present_has_a_timestamp() {
    let text = now_stamp();
    assert!(text.starts_with("20"));
    assert!(text.ends_with('Z'));
}
