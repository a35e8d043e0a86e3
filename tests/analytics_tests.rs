use keyboard_statistics::analytics::{
    average_kpm, backspace_ratio, calculate_average_kpm, category_breakdown, category_index,
    group_counts, heatmap, hour_breakdown, keep_combos, rank_desc, take_first, HeatCell, NameCount,
};
use keyboard_statistics::analyzer::DataAnalyzer;
use keyboard_statistics::clock::LocalTime;
use keyboard_statistics::health::Ratio;
use keyboard_statistics::keys::KeyCategory;
use keyboard_statistics::counts::Field;
use keyboard_statistics::store::{insert_event, EventStore, KeyboardEventRecord};
use keyboard_statistics::window::TimeRange;

fn ev(secs: i64, hour: u8, weekday: u8, day: u8, key: &str, app: &str) -> KeyboardEventRecord {
    KeyboardEventRecord {
        timestamp: LocalTime::from_parts(secs, hour, weekday, day).unwrap(),
        key_code: key.to_string(),
        app_name: app.to_string(),
        window_title: String::new(),
    }
}

fn nc(name: &str, count: u64) -> NameCount {
    NameCount { name: name.to_string(), count }
}

fn pairs(v: &[NameCount]) -> Vec<(String, u64)> {
    v.iter().map(|g| (g.name.clone(), g.count)).collect()
}

#[test]
fn ranking_is_stable_and_descending() {
    let g = vec![nc("a", 1), nc("b", 3), nc("c", 1), nc("d", 3), nc("e", 2)];
    let r = rank_desc(&g);
    assert_eq!(
        pairs(&r),
        vec![
            ("b".to_string(), 3),
            ("d".to_string(), 3),
            ("e".to_string(), 2),
            ("a".to_string(), 1),
            ("c".to_string(), 1)
        ]
    );
    assert_eq!(pairs(&take_first(r, 2)), vec![("b".to_string(), 3), ("d".to_string(), 3)]);
    assert!(rank_desc(&vec![]).is_empty());
}

#[test]
fn groups_keep_first_occurrence_order() {
    let evs = vec![
        ev(1, 0, 0, 1, "B", "x"),
        ev(2, 0, 0, 1, "A", "y"),
        ev(3, 0, 0, 1, "B", "x"),
    ];
    assert_eq!(pairs(&group_counts(&evs, Field::Key)), vec![("B".to_string(), 2), ("A".to_string(), 1)]);
    assert_eq!(pairs(&group_counts(&evs, Field::App)), vec![("x".to_string(), 2), ("y".to_string(), 1)]);
}

#[test]
fn combos_are_names_with_plus() {
    let g = vec![nc("Ctrl+C", 2), nc("A", 5), nc("Ctrl+Shift+T", 1), nc("+", 1)];
    assert_eq!(
        pairs(&keep_combos(&g)),
        vec![("Ctrl+C".to_string(), 2), ("Ctrl+Shift+T".to_string(), 1), ("+".to_string(), 1)]
    );
}

#[test]
fn rates_are_exact_ratios() {
    assert_eq!(average_kpm(30, 0, 600), Ratio { num: 30, den: 10 });
    assert_eq!(average_kpm(30, 0, 659), Ratio { num: 30, den: 10 });
    assert_eq!(average_kpm(30, 0, 59), Ratio { num: 0, den: 1 });
    assert_eq!(average_kpm(30, 100, 0), Ratio { num: 0, den: 1 });
    let evs = vec![
        ev(1, 0, 0, 1, "Backspace", "x"),
        ev(2, 0, 0, 1, "A", "x"),
        ev(3, 0, 0, 1, "B", "x"),
        ev(4, 0, 0, 1, "Backspace", "x"),
    ];
    assert_eq!(backspace_ratio(&evs), Ratio { num: 200, den: 4 });
    assert_eq!(backspace_ratio(&vec![]), Ratio { num: 0, den: 1 });
}

#[test]
fn breakdowns_count_every_event() {
    let evs = vec![
        ev(1, 9, 0, 1, "a", "x"),
        ev(2, 9, 0, 1, "Ctrl+C", "x"),
        ev(3, 23, 0, 1, "F3", "x"),
        ev(4, 23, 0, 1, "b", "x"),
        ev(5, 0, 0, 1, "Enter", "x"),
    ];
    let c = category_breakdown(&evs);
    assert_eq!(c[category_index(KeyCategory::Letter)], 2);
    assert_eq!(c[category_index(KeyCategory::Modifier)], 1);
    assert_eq!(c[category_index(KeyCategory::Function)], 1);
    assert_eq!(c[category_index(KeyCategory::Editing)], 1);
    assert_eq!(c[category_index(KeyCategory::Other)], 0);
    assert_eq!(c.iter().sum::<u64>(), evs.len() as u64);
    let h = hour_breakdown(&evs);
    assert_eq!(h.len(), 24);
    assert_eq!((h[0], h[9], h[23], h[12]), (1, 2, 2, 0));
}

#[test]
fn heatmaps_are_sparse_and_shaped_by_range() {
    let evs = vec![
        ev(1, 9, 2, 14, "a", "x"),
        ev(2, 9, 2, 14, "b", "x"),
        ev(3, 8, 5, 31, "c", "x"),
    ];
    let today = heatmap(&evs, TimeRange::Today);
    assert_eq!(today.kind, TimeRange::Today);
    assert_eq!(
        today.cells,
        vec![HeatCell { row: 0, hour: 8, count: 1 }, HeatCell { row: 0, hour: 9, count: 2 }]
    );
    let week = heatmap(&evs, TimeRange::Week);
    assert_eq!(
        week.cells,
        vec![HeatCell { row: 2, hour: 9, count: 2 }, HeatCell { row: 5, hour: 8, count: 1 }]
    );
    let month = heatmap(&evs, TimeRange::Month);
    assert_eq!(
        month.cells,
        vec![HeatCell { row: 14, hour: 9, count: 2 }, HeatCell { row: 31, hour: 8, count: 1 }]
    );
    assert!(heatmap(&vec![], TimeRange::All).cells.is_empty());
}

fn store() -> EventStore {
    let mut s = EventStore::new();
    let data = [
        (1000, 9, "A", "code"),
        (1010, 9, "Backspace", "code"),
        (1020, 9, "Ctrl+C", "chrome"),
        (1030, 10, "A", "code"),
        (1040, 10, "Ctrl+C", "slack"),
        (1050, 10, "Ctrl+V", "code"),
        (1060, 11, "B", "term"),
        (1070, 11, "B", "mail"),
        (1080, 11, "B", "notes"),
        (1090, 11, "C", "notes"),
    ];
    for (t, h, k, a) in data {
        insert_event(&mut s, ev(t, h, 1, 3, k, a)).unwrap();
    }
    s
}

#[test]
fn analyzer_reports_a_window() {
    let s = store();
    assert_eq!(calculate_average_kpm(&s, 1000, 1120), Ratio { num: 10, den: 2 });
    let a = DataAnalyzer::new(s);
    assert_eq!(a.get_total_presses(1000, 1050), 5);
    assert_eq!(
        pairs(&a.get_most_used_keys(1000, 2000, 2)),
        vec![("B".to_string(), 3), ("A".to_string(), 2)]
    );
    let combos = a.get_key_combos(1000, 2000, 10);
    let combos: Vec<(String, u64)> = combos.iter().map(|c| (c.combo.clone(), c.count)).collect();
    assert_eq!(combos, vec![("Ctrl+C".to_string(), 2), ("Ctrl+V".to_string(), 1)]);
    let apps = a.get_app_time_distribution(1000, 2000);
    let labels: Vec<&str> = apps.iter().map(|d| d.label.as_str()).collect();
    assert_eq!(labels, vec!["code", "notes", "chrome", "slack", "term"]);
    assert_eq!(apps[0].data[9], 2);
    assert_eq!(apps[0].data[10], 2);
    assert_eq!(apps[0].data.iter().sum::<u64>(), 4);
    assert_eq!(a.calculate_backspace_ratio(1000, 2000), Ratio { num: 100, den: 10 });
    assert_eq!(a.kpm_at(1090), 6);
    assert_eq!(a.kpm_at(1200), 0);
}

#[test]
fn stats_cover_window_and_previous_window() {
    let a = DataAnalyzer::new(store());
    let st = a.stats_at(TimeRange::Week, 1100, None);
    assert_eq!(st.total_presses, 10);
    assert_eq!(st.prev_total_presses, 0);
    assert_eq!(st.avg_kpm, Ratio { num: 10, den: 1 });
    assert_eq!(st.backspace_ratio, Ratio { num: 100, den: 10 });
    assert_eq!(st.kpm, 5);
    assert_eq!(st.activity_heatmap.kind, TimeRange::Week);
    assert_eq!(st.time_distribution[11], 4);
    assert_eq!(st.key_categories[category_index(KeyCategory::Modifier)], 3);
    assert_eq!(st.app_usage.len(), 6);
    assert_eq!(st.most_used_keys[0].name, "B");
    assert!(a.get_stats("fortnight").is_err());
    let live = a.get_stats("all").unwrap();
    assert_eq!(live.activity_heatmap.kind, TimeRange::All);
    assert_eq!(a.calculate_current_kpm(), 0);
}
