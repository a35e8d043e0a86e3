use keyboard_statistics::clock::LocalTime;
use keyboard_statistics::health::{
    advice, calculate_health_risk_metrics, get_health_risk_metrics, health_window, identify_continuous_typing_sessions,
    sessions_from_sorted, HealthAssessment, Ratio, RiskLevel, Session,
};
use keyboard_statistics::store::{insert_event, EventStore, KeyboardEventRecord};

fn r(num: u128, den: u128) -> Ratio {
    Ratio { num, den }
}

fn ev(secs: i64) -> KeyboardEventRecord {
    KeyboardEventRecord {
        timestamp: LocalTime::from_parts(secs, 9, 1, 2).unwrap(),
        key_code: "A".to_string(),
        app_name: "app".to_string(),
        window_title: String::new(),
    }
}

#[test]
fn sessions_split_at_long_gaps() {
    let s = sessions_from_sorted(&vec![0, 10, 20, 500, 510], 300);
    assert_eq!(
        s,
        vec![
            Session { start: 0, end: 20, duration_seconds: 20 },
            Session { start: 500, end: 510, duration_seconds: 10 },
        ]
    );
}

#[test]
fn sessions_of_nothing_and_of_one() {
    assert!(sessions_from_sorted(&vec![], 300).is_empty());
    assert_eq!(
        sessions_from_sorted(&vec![42], 300),
        vec![Session { start: 42, end: 42, duration_seconds: 0 }]
    );
    assert_eq!(sessions_from_sorted(&vec![0, 300], 300).len(), 1);
    assert_eq!(sessions_from_sorted(&vec![0, 301], 300).len(), 2);
}

#[test]
fn sessions_from_store_sort_timestamps() {
    let mut st = EventStore::new();
    for t in [500, 0, 20, 10, 510] {
        insert_event(&mut st, ev(t)).unwrap();
    }
    let s = identify_continuous_typing_sessions(&st, 0, 1000, 300);
    assert_eq!(s.len(), 2);
    assert_eq!((s[0].start, s[0].end), (0, 20));
    assert_eq!((s[1].start, s[1].end), (500, 510));
}

#[test]
fn risk_tiers() {
    assert_eq!(HealthAssessment::assess_risk(r(7, 1), r(350, 1)), RiskLevel::High);
    assert_eq!(HealthAssessment::assess_risk(r(5, 1), r(250, 1)), RiskLevel::Medium);
    assert_eq!(HealthAssessment::assess_risk(r(2, 1), r(100, 1)), RiskLevel::Low);
}

#[test]
fn risk_thresholds_are_strict() {
    assert_eq!(HealthAssessment::assess_risk(r(6, 1), r(350, 1)), RiskLevel::Medium);
    assert_eq!(HealthAssessment::assess_risk(r(13, 2), r(301, 1)), RiskLevel::High);
    assert_eq!(HealthAssessment::assess_risk(r(7, 1), r(300, 1)), RiskLevel::Medium);
    assert_eq!(HealthAssessment::assess_risk(r(4, 1), r(250, 1)), RiskLevel::Low);
    assert_eq!(HealthAssessment::assess_risk(r(0, 1), r(0, 1)), RiskLevel::Low);
    assert_eq!(HealthAssessment::assess_risk(r(u128::MAX, 1), r(1, u128::MAX)), RiskLevel::Low);
}

#[test]
fn assessment_carries_advice() {
    let a = HealthAssessment::new(r(7, 1), r(350, 1));
    assert_eq!(a.risk_level, RiskLevel::High);
    assert_eq!(a.recommendations, vec![advice(RiskLevel::High)]);
    assert_ne!(advice(RiskLevel::Low), advice(RiskLevel::Medium));
}

#[test]
fn health_metrics_of_a_day() {
    let mut st = EventStore::new();
    let mut t = 0;
    while t <= 4000 {
        insert_event(&mut st, ev(t)).unwrap();
        t += 100;
    }
    insert_event(&mut st, ev(10_000)).unwrap();
    let m = calculate_health_risk_metrics(&st, 0, 2 * 86400);
    assert_eq!(m.total_key_count, 42);
    assert_eq!(m.total_sessions, 2);
    assert_eq!(m.long_sessions_count, 1);
    assert_eq!(m.long_sessions, vec![Session { start: 0, end: 4000, duration_seconds: 4000 }]);
    assert_eq!(m.avg_session_duration_seconds, r(4000, 2));
    assert_eq!(m.days_analyzed, r(2 * 86400, 86400));
    assert_eq!(m.daily_avg_keys, r(42 * 86400, 2 * 86400));
    assert_eq!(m.long_sessions_per_day, r(86400, 2 * 86400));
    assert_eq!(m.avg_kpm, r(42, 2 * 1440));
}

#[test]
fn health_metrics_of_a_short_window() {
    let st = EventStore::new();
    let m = calculate_health_risk_metrics(&st, 0, 30);
    assert_eq!(m.total_key_count, 0);
    assert_eq!(m.days_analyzed, r(1, 1));
    assert_eq!(m.avg_kpm, r(0, 1));
    assert_eq!(m.avg_session_duration_seconds, r(0, 1));
    assert_eq!(m.total_sessions, 0);
}

#[test]
fn health_window_starts_at_first_event_or_a_month_back() {
    let w = health_window(Some(500), 10_000_000);
    assert_eq!((w.start, w.end), (500, 10_000_000));
    let w = health_window(None, 10_000_000);
    assert_eq!((w.start, w.end), (10_000_000 - 30 * 86400, 10_000_000));
    let mut st = EventStore::new();
    insert_event(&mut st, ev(1_000_000_000)).unwrap();
    insert_event(&mut st, ev(1_000_000_010)).unwrap();
    let m = get_health_risk_metrics(&st);
    assert_eq!(m.total_key_count, 2);
    assert_eq!(m.total_sessions, 1);
}
