//! Exports of a window: a summary (totals and rankings) or the raw events,
//! as JSON or as CSV text.
use vstd::prelude::*;
use vstd::string::*;
use crate::analytics::{average_kpm, group_counts, groups_of, kpm_of, rank_desc, take_first, top_n, views, NameCount};
use crate::health::Ratio;
use crate::clock::now_epoch_secs;
use crate::counts::events_between;
use crate::text::str_eq;
use crate::counts::Field;
use crate::store::{events_in_window, newest_first_order, query_events_by_time_range, AppStat, EventStore, KeyStat, KeyboardEventRecord};

verus! {

pub open spec fn digit_char(d: nat) -> char {
    if d == 0 { '0' } else if d == 1 { '1' } else if d == 2 { '2' } else if d == 3 { '3' }
    else if d == 4 { '4' } else if d == 5 { '5' } else if d == 6 { '6' } else if d == 7 { '7' }
    else if d == 8 { '8' } else { '9' }
}

/// The decimal digits of `n`, most significant first.
pub open spec fn decimal_of(n: nat) -> Seq<char>
    decreases n,
{
    if n < 10 {
        seq![digit_char(n)]
    } else {
        decimal_of(n / 10) + seq![digit_char(n % 10)]
    }
}

fn digit(d: u128) -> (r: &'static str)
    requires
        d < 10,
    ensures
        r@ == seq![digit_char(d as nat)],
{
    proof {
        reveal_strlit("0");
        reveal_strlit("1");
        reveal_strlit("2");
        reveal_strlit("3");
        reveal_strlit("4");
        reveal_strlit("5");
        reveal_strlit("6");
        reveal_strlit("7");
        reveal_strlit("8");
        reveal_strlit("9");
    }
    if d == 0 { "0" } else if d == 1 { "1" } else if d == 2 { "2" } else if d == 3 { "3" }
    else if d == 4 { "4" } else if d == 5 { "5" } else if d == 6 { "6" } else if d == 7 { "7" }
    else if d == 8 { "8" } else { "9" }
}

/// The decimal representation of `n`.
pub fn decimal(n: u128) -> (r: String)
    ensures
        r@ == decimal_of(n as nat),
    decreases n,
{
    if n < 10 {
        digit(n).to_owned()
    } else {
        let mut s = decimal(n / 10);
        s.append(digit(n % 10));
        s
    }
}

/// A ratio in hundredths, rounded half up.
pub open spec fn hundredths_of(r: Ratio) -> nat {
    ((200 * r.num + r.den) / (2 * r.den)) as nat
}

/// A ratio with two decimals.
pub open spec fn fixed2_of(r: Ratio) -> Seq<char> {
    let h = hundredths_of(r);
    decimal_of(h / 100) + "."@ + seq![digit_char((h % 100) / 10), digit_char(h % 10)]
}

/// A ratio with two decimals, rounded half up.
pub fn fixed2(r: Ratio) -> (s: String)
    requires
        r.wf(),
        r.num <= u64::MAX,
        r.den <= u64::MAX,
    ensures
        s@ == fixed2_of(r),
{
    assert(200 * r.num + r.den <= u128::MAX) by (nonlinear_arith)
        requires r.num <= u64::MAX, r.den <= u64::MAX;
    let h = (200 * r.num + r.den) / (2 * r.den);
    let mut s = decimal(h / 100);
    s.append(".");
    s.append(digit((h % 100) / 10));
    s.append(digit(h % 10));
    assert(s@ == fixed2_of(r));
    s
}

/// `s` with each character `c` replaced by `with`.
pub open spec fn replace_of(s: Seq<char>, c: char, with: Seq<char>) -> Seq<char>
    decreases s.len(),
{
    if s.len() == 0 {
        s
    } else if s.last() == c {
        replace_of(s.drop_last(), c, with) + with
    } else {
        replace_of(s.drop_last(), c, with).push(s.last())
    }
}

/// Replaces each character `c` of `s` by `with`.
pub fn replace_char(s: &str, c: char, with: &str) -> (r: String)
    ensures
        r@ == replace_of(s@, c, with@),
{
    let n = s.unicode_len();
    let mut out = String::new();
    let mut i: usize = 0;
    while i < n
        invariant
            n == s@.len(),
            i <= n,
            out@ == replace_of(s@.subrange(0, i as int), c, with@),
        decreases n - i,
    {
        assert(s@.subrange(0, i + 1).drop_last() == s@.subrange(0, i as int));
        let ch = s.get_char(i);
        if ch == c {
            out.append(with);
        } else {
            out.append(s.substring_char(i, i + 1));
            assert(s@.subrange(i as int, i + 1) == seq![ch]);
        }
        i = i + 1;
    }
    assert(s@.subrange(0, n as int) == s@);
    out
}

/// Relies on chrono's `DateTime::from_timestamp`, `with_timezone(&Local)` and
/// `format("%Y-%m-%d %H:%M:%S")`: the local date and time of an instant.
#[verifier::external_body]
fn readable_time(secs: i64) -> (r: String) {
    match chrono::DateTime::from_timestamp(secs, 0) {
        Some(t) => t.with_timezone(&chrono::Local).format("%Y-%m-%d %H:%M:%S").to_string(),
        None => String::new(),
    }
}

/// The counter rows of a store as names with counts.
pub open spec fn key_stat_views(s: Seq<KeyStat>) -> Seq<(Seq<char>, nat)> {
    s.map_values(|k: KeyStat| (k.key_code@, k.count as nat))
}

pub open spec fn app_stat_views(s: Seq<AppStat>) -> Seq<(Seq<char>, nat)> {
    s.map_values(|a: AppStat| (a.app_name@, a.key_count as nat))
}

/// The `limit` keys or chords with the highest running counts, ties in the
/// order their rows were created.
pub fn get_top_keys(store: &EventStore, limit: usize) -> (r: Vec<NameCount>)
    ensures
        views(r@) == top_n(key_stat_views(store.key_stats()), limit as nat),
{
    let rows = store.key_stat_rows();
    let mut g: Vec<NameCount> = Vec::new();
    let mut i: usize = 0;
    while i < rows.len()
        invariant
            i <= rows@.len(),
            views(g@) == key_stat_views(rows@.subrange(0, i as int)),
        decreases rows@.len() - i,
    {
        let ghost before = g@;
        g.push(NameCount { name: rows[i].key_code.clone(), count: rows[i].count });
        assert(views(g@) =~= views(before).push((rows@[i as int].key_code@, rows@[i as int].count as nat)));
        assert(key_stat_views(rows@.subrange(0, i + 1)) =~= key_stat_views(rows@.subrange(0, i as int)).push(
            (rows@[i as int].key_code@, rows@[i as int].count as nat),
        ));
        i = i + 1;
    }
    assert(rows@.subrange(0, i as int) == rows@);
    let r = rank_desc(&g);
    take_first(r, limit)
}

/// The `limit` applications with the highest running counts, ties in the
/// order their rows were created.
pub fn get_top_apps(store: &EventStore, limit: usize) -> (r: Vec<NameCount>)
    ensures
        views(r@) == top_n(app_stat_views(store.app_stats()), limit as nat),
{
    let rows = store.app_stat_rows();
    let mut g: Vec<NameCount> = Vec::new();
    let mut i: usize = 0;
    while i < rows.len()
        invariant
            i <= rows@.len(),
            views(g@) == app_stat_views(rows@.subrange(0, i as int)),
        decreases rows@.len() - i,
    {
        let ghost before = g@;
        g.push(NameCount { name: rows[i].app_name.clone(), count: rows[i].key_count });
        assert(views(g@) =~= views(before).push((rows@[i as int].app_name@, rows@[i as int].key_count as nat)));
        assert(app_stat_views(rows@.subrange(0, i + 1)) =~= app_stat_views(rows@.subrange(0, i as int)).push(
            (rows@[i as int].app_name@, rows@[i as int].key_count as nat),
        ));
        i = i + 1;
    }
    assert(rows@.subrange(0, i as int) == rows@);
    let r = rank_desc(&g);
    take_first(r, limit)
}

} // verus!

verus! {

/// The contents of a summary export.
#[derive(Clone, Debug)]
pub struct ExportSummary {
    pub start_time: i64,
    pub end_time: i64,
    pub total_key_count: u64,
    pub average_kpm: Ratio,
    pub top_keys: Vec<NameCount>,
    pub top_apps: Vec<NameCount>,
}

/// `s` summarizes `[start, end)` of `store`: its event count and rate, and
/// the ten keys and the ten applications with most events in the window.
pub open spec fn summary_match(store: EventStore, start: i64, end: i64, s: ExportSummary) -> bool {
    let win = events_between(store.events(), start, end);
    &&& s.start_time == start
    &&& s.end_time == end
    &&& s.total_key_count == win.len()
    &&& s.average_kpm == kpm_of(win.len(), start, end)
    &&& views(s.top_keys@) == top_n(groups_of(win, Field::Key), 10)
    &&& views(s.top_apps@) == top_n(groups_of(win, Field::App), 10)
}

/// The summary of `[start, end)`.
pub fn export_summary(store: &EventStore, start: i64, end: i64) -> (r: ExportSummary)
    ensures
        summary_match(*store, start, end, r),
        r.average_kpm.wf(),
        r.average_kpm.num <= u64::MAX,
        r.average_kpm.den <= u64::MAX,
{
    let evs = events_in_window(store, start, end);
    let total = evs.len() as u64;
    let kpm = average_kpm(total, start, end);
    assert(kpm.den <= u64::MAX) by {
        if (end - start) / 60 > 0 {
            assert((end - start) / 60 <= u64::MAX);
        }
    }
    let key_groups = group_counts(&evs, Field::Key);
    let app_groups = group_counts(&evs, Field::App);
    let keys = rank_desc(&key_groups);
    let apps = rank_desc(&app_groups);
    let ghost rk = keys@;
    let ghost ra = apps@;
    let top_keys = take_first(keys, 10);
    let top_apps = take_first(apps, 10);
    proof {
        if 10 < rk.len() {
            assert(views(top_keys@) =~= views(rk).take(10));
        }
        if 10 < ra.len() {
            assert(views(top_apps@) =~= views(ra).take(10));
        }
    }
    ExportSummary { start_time: start, end_time: end, total_key_count: total, average_kpm: kpm, top_keys, top_apps }
}

/// The readable local times an export shows: the window's ends and the
/// moment of export.
#[derive(Clone, Debug)]
pub struct ExportTimes {
    pub start: String,
    pub end: String,
    pub exported: String,
}

/// The readable times of `[start, end)` and of now.
pub fn export_times(start: i64, end: i64) -> (r: ExportTimes) {
    ExportTimes { start: readable_time(start), end: readable_time(end), exported: readable_time(now_epoch_secs()) }
}

/// One ranking row of the CSV summary: the quoted name and its count.
pub open spec fn csv_row_of(x: (Seq<char>, nat)) -> Seq<char> {
    "\""@ + replace_of(x.0, '"', "\"\""@) + "\","@ + decimal_of(x.1) + "\n"@
}

pub open spec fn csv_rows_of(s: Seq<(Seq<char>, nat)>) -> Seq<char>
    decreases s.len(),
{
    if s.len() == 0 {
        Seq::empty()
    } else {
        csv_rows_of(s.drop_last()) + csv_row_of(s.last())
    }
}

/// The CSV summary text, given the readable start, end and export times.
pub open spec fn summary_csv_of(
    st: Seq<char>,
    et: Seq<char>,
    xt: Seq<char>,
    total: nat,
    kpm: Ratio,
    keys: Seq<(Seq<char>, nat)>,
    apps: Seq<(Seq<char>, nat)>,
) -> Seq<char> {
    "开始时间,"@ + st + "\n结束时间,"@ + et + "\n导出时间,"@ + xt + "\n总按键次数,"@ + decimal_of(total)
        + "\n平均KPM,"@ + fixed2_of(kpm) + "\n\n最常用按键\n按键,次数\n"@ + csv_rows_of(keys)
        + "\n最常用应用\n应用名称,按键次数\n"@ + csv_rows_of(apps)
}

fn csv_rows(s: &Vec<NameCount>) -> (r: String)
    ensures
        r@ == csv_rows_of(views(s@)),
{
    let ghost v = views(s@);
    let mut out = String::new();
    let mut i: usize = 0;
    while i < s.len()
        invariant
            v == views(s@),
            i <= s@.len(),
            out@ == csv_rows_of(v.subrange(0, i as int)),
        decreases s@.len() - i,
    {
        assert(v.subrange(0, i + 1).drop_last() == v.subrange(0, i as int));
        assert(v.subrange(0, i + 1).last() == s@[i as int]@);
        let mut line = "\"".to_owned();
        line.append(replace_char(s[i].name.as_str(), '"', "\"\"").as_str());
        line.append("\",");
        line.append(decimal(s[i].count as u128).as_str());
        line.append("\n");
        out.append(line.as_str());
        i = i + 1;
    }
    assert(v.subrange(0, i as int) == v);
    out
}

/// Renders a summary as CSV, with the readable times given.
pub fn render_summary_csv(s: &ExportSummary, st: &str, et: &str, xt: &str) -> (r: String)
    requires
        s.average_kpm.wf(),
        s.average_kpm.num <= u64::MAX,
        s.average_kpm.den <= u64::MAX,
    ensures
        r@ == summary_csv_of(
            st@,
            et@,
            xt@,
            s.total_key_count as nat,
            s.average_kpm,
            views(s.top_keys@),
            views(s.top_apps@),
        ),
{
    let mut out = "开始时间,".to_owned();
    out.append(st);
    out.append("\n结束时间,");
    out.append(et);
    out.append("\n导出时间,");
    out.append(xt);
    out.append("\n总按键次数,");
    out.append(decimal(s.total_key_count as u128).as_str());
    out.append("\n平均KPM,");
    out.append(fixed2(s.average_kpm).as_str());
    out.append("\n\n最常用按键\n按键,次数\n");
    out.append(csv_rows(&s.top_keys).as_str());
    out.append("\n最常用应用\n应用名称,按键次数\n");
    out.append(csv_rows(&s.top_apps).as_str());
    out
}

} // verus!

verus! {

/// The CSV summary of `[start, end)`, with the times in local readable form.
pub fn export_summary_as_csv(store: &EventStore, start: i64, end: i64) -> (r: String)
    ensures
        exists|st: Seq<char>, et: Seq<char>, xt: Seq<char>|
            r@ == #[trigger] summary_csv_of(
                st,
                et,
                xt,
                events_between(store.events(), start, end).len(),
                kpm_of(events_between(store.events(), start, end).len(), start, end),
                top_n(groups_of(events_between(store.events(), start, end), Field::Key), 10),
                top_n(groups_of(events_between(store.events(), start, end), Field::App), 10),
            ),
{
    let s = export_summary(store, start, end);
    let t = export_times(start, end);
    render_summary_csv(&s, t.start.as_str(), t.end.as_str(), t.exported.as_str())
}

/// Two summaries of one window of one store, whichever format each is
/// rendered in, carry the same event count, rate and rankings of keys and
/// of applications: the content of an export does not depend on its format.
pub proof fn lemma_summary_is_format_independent(
    store: EventStore,
    start: i64,
    end: i64,
    a: ExportSummary,
    b: ExportSummary,
)
    requires
        summary_match(store, start, end, a),
        summary_match(store, start, end, b),
    ensures
        a.total_key_count == b.total_key_count,
        views(a.top_keys@) == views(b.top_keys@),
        views(a.top_apps@) == views(b.top_apps@),
        a.average_kpm == b.average_kpm,
{
}

/// One event of a raw export: its readable local time and its names.
#[derive(Clone, Debug)]
pub struct ExportRow {
    pub readable_time: String,
    pub key_code: String,
    pub app_name: String,
}

/// `rows` show the events `evs`, one row each, in order.
pub open spec fn rows_show(rows: Seq<ExportRow>, evs: Seq<KeyboardEventRecord>) -> bool {
    &&& rows.len() == evs.len()
    &&& forall|i: int|
        0 <= i < rows.len() ==> (#[trigger] rows[i]).key_code@ == evs[i].key_code@ && rows[i].app_name@
            == evs[i].app_name@
}

/// `rows` show the events of `[start, end)` of `store`, newest first.
pub open spec fn rows_of_window(rows: Seq<ExportRow>, store: EventStore, start: i64, end: i64) -> bool {
    exists|evs: Seq<KeyboardEventRecord>|
        #[trigger] rows_show(rows, evs) && evs.to_multiset() == events_between(store.events(), start, end).to_multiset()
            && newest_first_order(evs)
}

/// The rows of a raw export of `[start, end)`, newest first.
pub fn export_rows(store: &EventStore, start: i64, end: i64) -> (r: Vec<ExportRow>)
    ensures
        rows_of_window(r@, *store, start, end),
{
    let evs = query_events_by_time_range(store, start, end);
    let mut rows: Vec<ExportRow> = Vec::new();
    let mut i: usize = 0;
    while i < evs.len()
        invariant
            i <= evs@.len(),
            rows@.len() == i,
            forall|k: int|
                0 <= k < i ==> (#[trigger] rows@[k]).key_code@ == evs@[k].key_code@ && rows@[k].app_name@
                    == evs@[k].app_name@,
        decreases evs@.len() - i,
    {
        let e = &evs[i];
        rows.push(
            ExportRow {
                readable_time: readable_time(e.timestamp.epoch_secs),
                key_code: e.key_code.clone(),
                app_name: e.app_name.clone(),
            },
        );
        i = i + 1;
    }
    assert(rows_show(rows@, evs@));
    rows
}

/// One CSV line of a raw export.
pub open spec fn raw_csv_row_of(r: ExportRow) -> Seq<char> {
    r.readable_time@ + ",\""@ + replace_of(r.key_code@, ',', "\\,"@) + "\",\""@ + replace_of(
        r.app_name@,
        '"',
        "\"\""@,
    ) + "\"\n"@
}

pub open spec fn raw_csv_rows_of(rows: Seq<ExportRow>) -> Seq<char>
    decreases rows.len(),
{
    if rows.len() == 0 {
        Seq::empty()
    } else {
        raw_csv_rows_of(rows.drop_last()) + raw_csv_row_of(rows.last())
    }
}

/// The raw CSV text of `rows`.
pub open spec fn raw_csv_of(rows: Seq<ExportRow>) -> Seq<char> {
    "readable_time,key_code,app_name\n"@ + raw_csv_rows_of(rows)
}

/// Renders export rows as CSV.
pub fn render_rows_csv(rows: &Vec<ExportRow>) -> (r: String)
    ensures
        r@ == raw_csv_of(rows@),
{
    let mut body = String::new();
    let mut i: usize = 0;
    while i < rows.len()
        invariant
            i <= rows@.len(),
            body@ == raw_csv_rows_of(rows@.subrange(0, i as int)),
        decreases rows@.len() - i,
    {
        assert(rows@.subrange(0, i + 1).drop_last() == rows@.subrange(0, i as int));
        let row = &rows[i];
        let mut line = row.readable_time.clone();
        line.append(",\"");
        line.append(replace_char(row.key_code.as_str(), ',', "\\,").as_str());
        line.append("\",\"");
        line.append(replace_char(row.app_name.as_str(), '"', "\"\"").as_str());
        line.append("\"\n");
        body.append(line.as_str());
        i = i + 1;
    }
    assert(rows@.subrange(0, i as int) == rows@);
    let mut out = "readable_time,key_code,app_name\n".to_owned();
    out.append(body.as_str());
    out
}

/// The events of `[start, end)` as CSV, newest first.
pub fn export_data_as_csv(store: &EventStore, start: i64, end: i64) -> (r: String)
    ensures
        exists|rows: Seq<ExportRow>| rows_of_window(rows, *store, start, end) && r@ == #[trigger] raw_csv_of(rows),
{
    let rows = export_rows(store, start, end);
    render_rows_csv(&rows)
}

/// The four exports: a summary or the raw events, as JSON or as CSV.
#[derive(Clone, Copy, Debug, PartialEq, Eq, Structural)]
pub enum ExportKind {
    SummaryJson,
    SummaryCsv,
    RawJson,
    RawCsv,
}

/// Why an export request was refused.
#[derive(Clone, Copy, Debug, PartialEq, Eq, Structural)]
pub enum ExportRequestError {
    /// The granularity is neither `summary` nor `raw`.
    UnsupportedType,
    /// The format is neither `json` nor `csv`.
    UnsupportedFormat,
}

pub open spec fn export_kind_of(granularity: Seq<char>, format: Seq<char>) -> Result<ExportKind, ExportRequestError> {
    if granularity == "summary"@ || granularity == "raw"@ {
        if format == "json"@ {
            Ok(if granularity == "summary"@ { ExportKind::SummaryJson } else { ExportKind::RawJson })
        } else if format == "csv"@ {
            Ok(if granularity == "summary"@ { ExportKind::SummaryCsv } else { ExportKind::RawCsv })
        } else {
            Err(ExportRequestError::UnsupportedFormat)
        }
    } else {
        Err(ExportRequestError::UnsupportedType)
    }
}

/// Reads an export request: granularity `summary` or `raw`, format `json`
/// or `csv`; an unknown granularity is refused before the format is read.
pub fn parse_export(granularity: &str, format: &str) -> (r: Result<ExportKind, ExportRequestError>)
    ensures
        r == export_kind_of(granularity@, format@),
{
    let summary = str_eq(granularity, "summary");
    if !summary && !str_eq(granularity, "raw") {
        return Err(ExportRequestError::UnsupportedType);
    }
    if str_eq(format, "json") {
        Ok(if summary { ExportKind::SummaryJson } else { ExportKind::RawJson })
    } else if str_eq(format, "csv") {
        Ok(if summary { ExportKind::SummaryCsv } else { ExportKind::RawCsv })
    } else {
        Err(ExportRequestError::UnsupportedFormat)
    }
}

} // verus!
