use keyboard_statistics::analytics::NameCount;
use keyboard_statistics::clock::LocalTime;
use keyboard_statistics::export::{
    decimal, export_data_as_csv, export_rows, export_summary, export_summary_as_csv, fixed2,
    get_top_apps, get_top_keys, parse_export, render_rows_csv, render_summary_csv, replace_char,
    ExportKind, ExportRequestError, ExportRow, ExportSummary,
};
use keyboard_statistics::health::Ratio;
use keyboard_statistics::store::{insert_event, EventStore, KeyboardEventRecord};

fn ev(secs: i64, key: &str, app: &str) -> KeyboardEventRecord {
    KeyboardEventRecord {
        timestamp: LocalTime::from_parts(secs, 1, 1, 1).unwrap(),
        key_code: key.to_string(),
        app_name: app.to_string(),
        window_title: String::new(),
    }
}

fn store() -> EventStore {
    let mut s = EventStore::new();
    for (t, k, a) in [(0, "A", "code"), (60, "B", "code"), (120, "A", "chat \"x\""), (180, "Ctrl+C", "code")] {
        insert_event(&mut s, ev(t, k, a)).unwrap();
    }
    s
}

#[test]
fn numbers_render_in_decimal() {
    assert_eq!(decimal(0), "0");
    assert_eq!(decimal(7), "7");
    assert_eq!(decimal(1234567890), "1234567890");
    assert_eq!(decimal(u64::MAX as u128), "18446744073709551615");
    assert_eq!(fixed2(Ratio { num: 3, den: 2 }), "1.50");
    assert_eq!(fixed2(Ratio { num: 2, den: 3 }), "0.67");
    assert_eq!(fixed2(Ratio { num: 0, den: 1 }), "0.00");
    assert_eq!(fixed2(Ratio { num: 1, den: 200 }), "0.01");
}

#[test]
fn characters_are_replaced() {
    assert_eq!(replace_char("a,b,,c", ',', "\\,"), "a\\,b\\,\\,c");
    assert_eq!(replace_char("say \"hi\"", '"', "\"\""), "say \"\"hi\"\"");
    assert_eq!(replace_char("", 'x', "y"), "");
}

#[test]
fn top_rows_come_from_the_counters() {
    let s = store();
    let k: Vec<(String, u64)> = get_top_keys(&s, 10).iter().map(|g| (g.name.clone(), g.count)).collect();
    assert_eq!(k, vec![("A".to_string(), 2), ("B".to_string(), 1), ("Ctrl+C".to_string(), 1)]);
    let a: Vec<(String, u64)> = get_top_apps(&s, 1).iter().map(|g| (g.name.clone(), g.count)).collect();
    assert_eq!(a, vec![("code".to_string(), 3)]);
}

fn summary() -> ExportSummary {
    ExportSummary {
        start_time: 0,
        end_time: 600,
        total_key_count: 4,
        average_kpm: Ratio { num: 4, den: 10 },
        top_keys: vec![NameCount { name: "A".to_string(), count: 2 }, NameCount { name: "B\"".to_string(), count: 1 }],
        top_apps: vec![NameCount { name: "code".to_string(), count: 4 }],
    }
}

#[test]
fn summary_csv_layout() {
    let text = render_summary_csv(&summary(), "S", "E", "X");
    assert_eq!(
        text,
        "开始时间,S\n结束时间,E\n导出时间,X\n总按键次数,4\n平均KPM,0.40\n\n最常用按键\n按键,次数\n\"A\",2\n\"B\"\"\",1\n\n最常用应用\n应用名称,按键次数\n\"code\",4\n"
    );
}

#[test]
fn summary_content_is_the_same_in_every_format() {
    let s = store();
    let sum = export_summary(&s, 0, 240);
    assert_eq!(sum.total_key_count, 4);
    assert_eq!(sum.average_kpm, Ratio { num: 4, den: 4 });
    let keys: Vec<(String, u64)> = sum.top_keys.iter().map(|g| (g.name.clone(), g.count)).collect();
    assert_eq!(keys, vec![("A".to_string(), 2), ("B".to_string(), 1), ("Ctrl+C".to_string(), 1)]);
    let csv = export_summary_as_csv(&s, 0, 240);
    assert!(csv.contains("总按键次数,4\n"));
    let csv_keys: Vec<&str> = csv
        .split("按键,次数\n")
        .nth(1)
        .unwrap()
        .split("\n\n")
        .next()
        .unwrap()
        .lines()
        .map(|l| l.split(',').next().unwrap().trim_matches('"'))
        .collect();
    let summary_keys: Vec<&str> = sum.top_keys.iter().map(|g| g.name.as_str()).collect();
    assert_eq!(csv_keys, summary_keys);
}

#[test]
fn summary_ranks_the_window_not_all_time() {
    let s = store();
    let sum = export_summary(&s, 100, 240);
    assert_eq!(sum.total_key_count, 2);
    let keys: Vec<(String, u64)> = sum.top_keys.iter().map(|g| (g.name.clone(), g.count)).collect();
    assert_eq!(keys, vec![("A".to_string(), 1), ("Ctrl+C".to_string(), 1)]);
    let apps: Vec<(String, u64)> = sum.top_apps.iter().map(|g| (g.name.clone(), g.count)).collect();
    assert_eq!(apps, vec![("chat \"x\"".to_string(), 1), ("code".to_string(), 1)]);
}

#[test]
fn export_requests_are_parsed() {
    assert_eq!(parse_export("summary", "json"), Ok(ExportKind::SummaryJson));
    assert_eq!(parse_export("summary", "csv"), Ok(ExportKind::SummaryCsv));
    assert_eq!(parse_export("raw", "json"), Ok(ExportKind::RawJson));
    assert_eq!(parse_export("raw", "csv"), Ok(ExportKind::RawCsv));
    assert_eq!(parse_export("raw", "xml"), Err(ExportRequestError::UnsupportedFormat));
    assert_eq!(parse_export("full", "xml"), Err(ExportRequestError::UnsupportedType));
    assert_eq!(parse_export("full", "json"), Err(ExportRequestError::UnsupportedType));
}

#[test]
fn raw_exports_list_events_newest_first() {
    let rows = vec![ExportRow { readable_time: "T".to_string(), key_code: "a,b".to_string(), app_name: "x\"y".to_string() }];
    assert_eq!(render_rows_csv(&rows), "readable_time,key_code,app_name\nT,\"a\\,b\",\"x\"\"y\"\n");
    assert_eq!(render_rows_csv(&vec![]), "readable_time,key_code,app_name\n");
    let s = store();
    let csv = export_data_as_csv(&s, 0, 130);
    let keys: Vec<&str> = csv.lines().skip(1).map(|l| l.split(",\"").nth(1).unwrap()).collect();
    assert_eq!(keys, vec!["A\"", "B\"", "A\""]);
    let rows = export_rows(&s, 0, 200);
    let apps: Vec<&str> = rows.iter().map(|r| r.app_name.as_str()).collect();
    assert_eq!(apps, vec!["code", "chat \"x\"", "code", "code"]);
    assert!(export_rows(&s, 1000, 2000).is_empty());
}

#[test]
fn raw_export_times_are_readable() {
    let csv = export_data_as_csv(&store(), 0, 1);
    let row = csv.lines().nth(1).unwrap();
    let time = row.split(',').next().unwrap();
    assert_eq!(time.len(), 19);
    let b = time.as_bytes();
    assert_eq!((b[4], b[7], b[10], b[13], b[16]), (b'-', b'-', b' ', b':', b':'));
    assert!(time.starts_with("1970-01-01") || time.starts_with("1969-12-31"));
}
