use keyboard_statistics::clock::LocalTime;
use keyboard_statistics::store::{
    clear_all_data, delete_data_by_time_range, events_in_window, get_key_count_by_time_range, get_total_key_count,
    insert_event, query_events_by_time_range, EventStore, KeyboardEventRecord,
};

fn at(secs: i64) -> LocalTime {
    LocalTime::from_parts(secs, ((secs / 3600) % 24) as u8, 3, 15).unwrap()
}

fn ev(secs: i64, key: &str, app: &str) -> KeyboardEventRecord {
    KeyboardEventRecord {
        timestamp: at(secs),
        key_code: key.to_string(),
        app_name: app.to_string(),
        window_title: String::new(),
    }
}

fn key_rows(s: &EventStore) -> Vec<(String, u64)> {
    s.key_stat_rows().iter().map(|k| (k.key_code.clone(), k.count)).collect()
}

fn app_rows(s: &EventStore) -> Vec<(String, u64)> {
    s.app_stat_rows().iter().map(|a| (a.app_name.clone(), a.key_count)).collect()
}

fn sample() -> EventStore {
    let mut s = EventStore::new();
    insert_event(&mut s, ev(100, "A", "code.exe")).unwrap();
    insert_event(&mut s, ev(200, "B", "code.exe")).unwrap();
    insert_event(&mut s, ev(300, "A", "chrome.exe")).unwrap();
    insert_event(&mut s, ev(400, "Ctrl+C", "code.exe")).unwrap();
    insert_event(&mut s, ev(500, "A", "code.exe")).unwrap();
    s
}

#[test]
fn insert_upserts_both_counters() {
    let s = sample();
    assert_eq!(get_total_key_count(&s), 5);
    assert_eq!(
        key_rows(&s),
        vec![("A".to_string(), 3), ("B".to_string(), 1), ("Ctrl+C".to_string(), 1)]
    );
    assert_eq!(app_rows(&s), vec![("code.exe".to_string(), 4), ("chrome.exe".to_string(), 1)]);
    assert_eq!(s.app_stat_rows()[0].last_used, 500);
    assert_eq!(s.app_stat_rows()[1].last_used, 300);
}

#[test]
fn counters_add_up_to_event_count() {
    let mut s = sample();
    let total: u64 = s.key_stat_rows().iter().map(|k| k.count).sum();
    let apps: u64 = s.app_stat_rows().iter().map(|a| a.key_count).sum();
    assert_eq!(total, 5);
    assert_eq!(apps, 5);
    delete_data_by_time_range(&mut s, 150, 350);
    let total: u64 = s.key_stat_rows().iter().map(|k| k.count).sum();
    let apps: u64 = s.app_stat_rows().iter().map(|a| a.key_count).sum();
    assert_eq!(total, get_total_key_count(&s));
    assert_eq!(apps, get_total_key_count(&s));
}

#[test]
fn range_queries_are_half_open() {
    let s = sample();
    assert_eq!(get_key_count_by_time_range(&s, 100, 300), 2);
    assert_eq!(get_key_count_by_time_range(&s, 100, 301), 3);
    let evs = events_in_window(&s, 200, 500);
    let keys: Vec<&str> = evs.iter().map(|e| e.key_code.as_str()).collect();
    assert_eq!(keys, vec!["B", "A", "Ctrl+C"]);
}

#[test]
fn queries_come_newest_first() {
    let mut s = EventStore::new();
    insert_event(&mut s, ev(300, "A", "x")).unwrap();
    insert_event(&mut s, ev(100, "B", "x")).unwrap();
    insert_event(&mut s, ev(200, "C", "x")).unwrap();
    let evs = query_events_by_time_range(&s, 0, 1000);
    let times: Vec<i64> = evs.iter().map(|e| e.timestamp.epoch_secs).collect();
    assert_eq!(times, vec![300, 200, 100]);
    let stored: Vec<i64> = events_in_window(&s, 0, 1000).iter().map(|e| e.timestamp.epoch_secs).collect();
    assert_eq!(stored, vec![300, 100, 200]);
}

#[test]
fn insert_leaves_other_rows_alone() {
    let mut s = sample();
    let before_apps = app_rows(&s);
    insert_event(&mut s, ev(600, "B", "chrome.exe")).unwrap();
    assert_eq!(key_rows(&s)[0], ("A".to_string(), 3));
    assert_eq!(key_rows(&s)[1], ("B".to_string(), 2));
    assert_eq!(app_rows(&s)[0], before_apps[0]);
    assert_eq!(s.app_stat_rows()[0].last_used, 500);
    assert_eq!(s.app_stat_rows()[1].last_used, 600);
}

#[test]
fn delete_range_subtracts_and_drops_empty_rows() {
    let mut s = sample();
    let n = delete_data_by_time_range(&mut s, 150, 450);
    assert_eq!(n, 3);
    assert_eq!(get_key_count_by_time_range(&s, 150, 450), 0);
    assert!(query_events_by_time_range(&s, 150, 450).is_empty());
    assert_eq!(key_rows(&s), vec![("A".to_string(), 2)]);
    assert_eq!(app_rows(&s), vec![("code.exe".to_string(), 2)]);
}

#[test]
fn delete_of_empty_range_changes_nothing() {
    let mut s = sample();
    assert_eq!(delete_data_by_time_range(&mut s, 1000, 2000), 0);
    assert_eq!(get_total_key_count(&s), 5);
    assert_eq!(key_rows(&s).len(), 3);
}

#[test]
fn clear_empties_everything() {
    let mut s = sample();
    clear_all_data(&mut s);
    assert_eq!(get_total_key_count(&s), 0);
    assert!(s.key_stat_rows().is_empty());
    assert!(s.app_stat_rows().is_empty());
    assert_eq!(s.earliest_event_time(), None);
}

#[test]
fn earliest_event_time_is_the_minimum() {
    let mut s = EventStore::new();
    assert_eq!(s.earliest_event_time(), None);
    insert_event(&mut s, ev(900, "A", "x")).unwrap();
    insert_event(&mut s, ev(300, "B", "x")).unwrap();
    insert_event(&mut s, ev(600, "C", "x")).unwrap();
    assert_eq!(s.earliest_event_time(), Some(300));
}
