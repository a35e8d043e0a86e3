use keyboard_statistics::window::get_adjusted_time_range;
use keyboard_statistics::store::EventStore;
use keyboard_statistics::store::StatsError;
use keyboard_statistics::window::{
    parse_range, previous_window, resolve_window, TimeRange, TimeWindow, MONTH_SECS, WEEK_SECS,
    YEAR_SECS,
};

const NOW: i64 = 1_700_000_000;

#[test]
fn tokens_parse() {
    assert_eq!(parse_range("today"), Ok(TimeRange::Today));
    assert_eq!(parse_range("week"), Ok(TimeRange::Week));
    assert_eq!(parse_range("month"), Ok(TimeRange::Month));
    assert_eq!(parse_range("all"), Ok(TimeRange::All));
    assert_eq!(parse_range("year"), Err(StatsError::InvalidRange));
    assert_eq!(parse_range("Today"), Err(StatsError::InvalidRange));
    assert_eq!(parse_range(""), Err(StatsError::InvalidRange));
}

#[test]
fn fixed_length_windows() {
    assert_eq!(WEEK_SECS, 7 * 86400);
    assert_eq!(MONTH_SECS, 30 * 86400);
    assert_eq!(YEAR_SECS, 365 * 86400);
    let w = resolve_window(TimeRange::Week, NOW, None, None);
    assert_eq!(w, TimeWindow { start: NOW - 7 * 86400, end: NOW });
    let m = resolve_window(TimeRange::Month, NOW, None, Some(0));
    assert_eq!(m, TimeWindow { start: NOW - 30 * 86400, end: NOW });
}

#[test]
fn all_window_clamps_to_first_event() {
    let t0 = NOW - 10 * 86400;
    let w = resolve_window(TimeRange::All, NOW, None, Some(t0));
    assert_eq!(w.start, t0);
    assert_eq!(w.end, NOW);
    let old = NOW - 400 * 86400;
    let w = resolve_window(TimeRange::All, NOW, None, Some(old));
    assert_eq!(w.start, NOW - 365 * 86400);
}

#[test]
fn week_window_clamps_to_first_event() {
    let t0 = NOW - 3600;
    let w = resolve_window(TimeRange::Week, NOW, None, Some(t0));
    assert_eq!(w, TimeWindow { start: t0, end: NOW });
}

#[test]
fn today_starts_at_local_midnight() {
    let midnight = NOW - 5 * 3600;
    let w = resolve_window(TimeRange::Today, NOW, Some(midnight), None);
    assert_eq!(w, TimeWindow { start: midnight, end: NOW });
    let w = resolve_window(TimeRange::Today, NOW, None, None);
    assert_eq!(w, TimeWindow { start: NOW, end: NOW });
    let w = resolve_window(TimeRange::Today, NOW, Some(NOW + 10), None);
    assert_eq!(w.start, NOW);
}

#[test]
fn today_trend_window_is_symmetric() {
    let midnight = NOW - 5 * 3600;
    let w = resolve_window(TimeRange::Today, NOW, Some(midnight), None);
    let p = previous_window(TimeRange::Today, w);
    assert_eq!(p.end, w.start);
    assert_eq!(p.end - p.start, w.end - w.start);
    assert_eq!(p.start, midnight - 5 * 3600);
}

#[test]
fn previous_windows_of_other_ranges() {
    let w = resolve_window(TimeRange::Week, NOW, None, None);
    assert_eq!(previous_window(TimeRange::Week, w), TimeWindow { start: w.start - WEEK_SECS, end: w.start });
    let m = resolve_window(TimeRange::Month, NOW, None, None);
    assert_eq!(previous_window(TimeRange::Month, m), TimeWindow { start: m.start - MONTH_SECS, end: m.start });
    let a = resolve_window(TimeRange::All, NOW, None, None);
    assert_eq!(previous_window(TimeRange::All, a), a);
}

#[test]
fn current_range_uses_the_clock_and_the_store() {
    let s = EventStore::new();
    let r = get_adjusted_time_range(&s, "week").unwrap();
    assert_eq!(r.range, TimeRange::Week);
    assert_eq!(r.window.end - r.window.start, WEEK_SECS);
    assert!(r.window.end > 1_600_000_000);
    let t = get_adjusted_time_range(&s, "today").unwrap();
    assert!(t.window.start <= t.window.end);
    assert!(t.window.end - t.window.start <= 2 * 86400);
    assert_eq!(get_adjusted_time_range(&s, "decade"), Err(StatsError::InvalidRange));
}
