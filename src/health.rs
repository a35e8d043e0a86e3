//! Continuous-typing sessions and the health-risk scorer.
use vstd::prelude::*;
use crate::analytics::{average_kpm, kpm_of};
use crate::counts::events_between;
use crate::store::{earliest, events_in_window, EventStore, KeyboardEventRecord};
use crate::clock::{clock_reading, now_epoch_secs};
use crate::window::TimeWindow;

verus! {

/// A non-negative rational number `num / den`, kept as two integers so
/// that rates are exact.
#[derive(Clone, Copy, Debug, PartialEq, Eq, Structural)]
pub struct Ratio {
    pub num: u128,
    pub den: u128,
}

impl Ratio {
    pub open spec fn wf(&self) -> bool {
        self.den > 0
    }

    /// The ratio is greater than the integer `k`.
    pub open spec fn exceeds(&self, k: int) -> bool {
        self.num > k * self.den
    }

    /// Whether the ratio is greater than `k`.
    pub fn greater_than(&self, k: u128) -> (r: bool)
        requires
            self.wf(),
            1 <= k <= 1000,
        ensures
            r == self.exceeds(k as int),
    {
        if self.den > u128::MAX / k {
            assert(k * self.den > u128::MAX) by (nonlinear_arith)
                requires
                    self.den > u128::MAX / k,
                    k >= 1,
            ;
            false
        } else {
            assert(k * self.den <= u128::MAX) by (nonlinear_arith)
                requires
                    self.den <= u128::MAX / k,
                    k >= 1,
            ;
            self.num > k * self.den
        }
    }
}

/// A run of events with no gap above the threshold between neighbours.
#[derive(Clone, Copy, Debug, PartialEq, Eq, Structural)]
pub struct Session {
    pub start: i64,
    pub end: i64,
    pub duration_seconds: u64,
}

pub open spec fn sorted_instants(s: Seq<i64>) -> bool {
    forall|i: int, j: int| 0 <= i <= j < s.len() ==> s[i] <= s[j]
}

pub open spec fn session_of(start: i64, end: i64) -> Session {
    Session { start, end, duration_seconds: (end - start) as u64 }
}

/// The sessions of ascending instants `ts`: each instant further than
/// `max_gap` seconds from the one before it opens a new session; otherwise
/// it extends the current one.
pub open spec fn sessions_of(ts: Seq<i64>, max_gap: i64) -> Seq<Session>
    decreases ts.len(),
{
    if ts.len() == 0 {
        Seq::empty()
    } else if ts.len() == 1 {
        seq![session_of(ts[0], ts[0])]
    } else {
        let prev = sessions_of(ts.drop_last(), max_gap);
        let t = ts.last();
        if t - ts[ts.len() - 2] > max_gap {
            prev.push(session_of(t, t))
        } else {
            prev.update(prev.len() - 1, session_of(prev.last().start, t))
        }
    }
}

proof fn lemma_sessions_shape(ts: Seq<i64>, max_gap: i64)
    requires
        sorted_instants(ts),
        ts.len() > 0,
    ensures
        sessions_of(ts, max_gap).len() > 0,
        sessions_of(ts, max_gap).last().end == ts.last(),
        sessions_of(ts, max_gap).last().start <= ts.last(),
        sessions_of(ts, max_gap).last().start >= ts[0],
    decreases ts.len(),
{
    if ts.len() > 1 {
        let d = ts.drop_last();
        assert(sorted_instants(d));
        lemma_sessions_shape(d, max_gap);
        assert(d.last() == ts[ts.len() - 2]);
        assert(ts[ts.len() - 2] <= ts[ts.len() - 1]);
        assert(d[0] == ts[0]);
    }
}

/// Groups ascending instants into sessions.
pub fn sessions_from_sorted(ts: &Vec<i64>, max_gap: i64) -> (r: Vec<Session>)
    requires
        sorted_instants(ts@),
    ensures
        r@ == sessions_of(ts@, max_gap),
{
    let mut out: Vec<Session> = Vec::new();
    if ts.len() == 0 {
        return out;
    }
    let mut session_start = ts[0];
    let mut last = ts[0];
    let mut i: usize = 1;
    while i < ts.len()
        invariant
            sorted_instants(ts@),
            1 <= i <= ts@.len(),
            last == ts@[i - 1],
            ts@[0] <= session_start <= last,
            out@.push(session_of(session_start, last)) == sessions_of(ts@.subrange(0, i as int), max_gap),
        decreases ts@.len() - i,
    {
        let ghost sub = ts@.subrange(0, i as int);
        let ghost next = ts@.subrange(0, i + 1);
        proof {
            assert(next.drop_last() == sub);
            assert(next[next.len() - 2] == last);
            assert(sub.len() > 0);
            lemma_sessions_shape(sub, max_gap);
            assert(ts@[0] <= ts@[i as int]);
            assert(ts@[i - 1] <= ts@[i as int]);
        }
        let cur = ts[i];
        let gap: i128 = cur as i128 - last as i128;
        if gap > max_gap as i128 {
            out.push(Session { start: session_start, end: last, duration_seconds: (last as i128 - session_start as i128) as u64 });
            session_start = cur;
        } else {
            proof {
                let prev = sessions_of(sub, max_gap);
                assert(prev.last() == session_of(session_start, last));
                assert(prev.update(prev.len() - 1, session_of(session_start, cur)) == out@.push(session_of(session_start, cur)));
            }
        }
        last = cur;
        i = i + 1;
    }
    out.push(Session { start: session_start, end: last, duration_seconds: (last as i128 - session_start as i128) as u64 });
    assert(ts@.subrange(0, i as int) == ts@);
    out
}

/// Sessions that last at least an hour.
pub open spec fn is_long(s: Session) -> bool {
    s.duration_seconds >= 3600
}

pub open spec fn long_sessions_of(s: Seq<Session>) -> Seq<Session>
    decreases s.len(),
{
    if s.len() == 0 {
        s
    } else if is_long(s.last()) {
        long_sessions_of(s.drop_last()).push(s.last())
    } else {
        long_sessions_of(s.drop_last())
    }
}

pub open spec fn duration_sum(s: Seq<Session>) -> nat
    decreases s.len(),
{
    if s.len() == 0 {
        0
    } else {
        duration_sum(s.drop_last()) + s.last().duration_seconds as nat
    }
}

/// The sessions of at least an hour, in order.
pub fn long_sessions(s: &Vec<Session>) -> (r: Vec<Session>)
    ensures
        r@ == long_sessions_of(s@),
{
    let mut out: Vec<Session> = Vec::new();
    let mut i: usize = 0;
    while i < s.len()
        invariant
            i <= s@.len(),
            out@ == long_sessions_of(s@.subrange(0, i as int)),
        decreases s@.len() - i,
    {
        assert(s@.subrange(0, i + 1).drop_last() == s@.subrange(0, i as int));
        if s[i].duration_seconds >= 3600 {
            out.push(s[i]);
        }
        i = i + 1;
    }
    assert(s@.subrange(0, i as int) == s@);
    out
}

/// The total duration of the sessions, in seconds.
pub fn total_duration(s: &Vec<Session>) -> (r: u128)
    ensures
        r == duration_sum(s@),
{
    let mut t: u128 = 0;
    let mut i: usize = 0;
    while i < s.len()
        invariant
            i <= s@.len(),
            t == duration_sum(s@.subrange(0, i as int)),
            t <= i * (u64::MAX as int),
        decreases s@.len() - i,
    {
        assert(s@.subrange(0, i + 1).drop_last() == s@.subrange(0, i as int));
        assert(i * (u64::MAX as int) + u64::MAX <= u128::MAX) by (nonlinear_arith)
            requires
                i <= usize::MAX,
        ;
        t = t + s[i].duration_seconds as u128;
        assert((i + 1) * (u64::MAX as int) == i * (u64::MAX as int) + u64::MAX) by (nonlinear_arith);
        i = i + 1;
    }
    assert(s@.subrange(0, i as int) == s@);
    t
}

/// Risk tiers.
#[derive(Clone, Copy, Debug, PartialEq, Eq, Structural)]
pub enum RiskLevel {
    Low,
    Medium,
    High,
}

/// The tier of a daily usage and a typing rate: high above 300 keys per
/// minute with more than six hours a day, medium above 200 with more than
/// four, low otherwise.
pub open spec fn risk_of(daily_usage_hours: Ratio, average_kpm: Ratio) -> RiskLevel {
    if average_kpm.exceeds(300) && daily_usage_hours.exceeds(6) {
        RiskLevel::High
    } else if average_kpm.exceeds(200) && daily_usage_hours.exceeds(4) {
        RiskLevel::Medium
    } else {
        RiskLevel::Low
    }
}

pub open spec fn advice_of(level: RiskLevel) -> Seq<char> {
    match level {
        RiskLevel::High => "High strain: take regular rest breaks and slow down to avoid repetitive strain injury."@,
        RiskLevel::Medium => "Moderate strain: take periodic breaks and check your posture."@,
        RiskLevel::Low => "Your current keyboard usage looks fine."@,
    }
}

/// A risk tier with its advice.
#[derive(Clone, Debug)]
pub struct HealthAssessment {
    pub daily_usage_hours: Ratio,
    pub average_kpm: Ratio,
    pub risk_level: RiskLevel,
    pub recommendations: Vec<String>,
}

impl HealthAssessment {
    pub fn new(daily_usage_hours: Ratio, average_kpm: Ratio) -> (r: Self)
        requires
            daily_usage_hours.wf(),
            average_kpm.wf(),
        ensures
            r.daily_usage_hours == daily_usage_hours,
            r.average_kpm == average_kpm,
            r.risk_level == risk_of(daily_usage_hours, average_kpm),
            r.recommendations@.len() == 1,
            r.recommendations@[0]@ == advice_of(r.risk_level),
    {
        let level = Self::assess_risk(daily_usage_hours, average_kpm);
        let mut recommendations: Vec<String> = Vec::new();
        recommendations.push(advice(level));
        HealthAssessment { daily_usage_hours, average_kpm, risk_level: level, recommendations }
    }

    /// The tier of a daily usage in hours and an average rate in keys per
    /// minute.
    pub fn assess_risk(daily_usage_hours: Ratio, average_kpm: Ratio) -> (r: RiskLevel)
        requires
            daily_usage_hours.wf(),
            average_kpm.wf(),
        ensures
            r == risk_of(daily_usage_hours, average_kpm),
    {
        if average_kpm.greater_than(300) && daily_usage_hours.greater_than(6) {
            RiskLevel::High
        } else if average_kpm.greater_than(200) && daily_usage_hours.greater_than(4) {
            RiskLevel::Medium
        } else {
            RiskLevel::Low
        }
    }
}

/// The advice for a tier.
pub fn advice(level: RiskLevel) -> (r: String)
    ensures
        r@ == advice_of(level),
{
    let s = match level {
        RiskLevel::High => "High strain: take regular rest breaks and slow down to avoid repetitive strain injury.",
        RiskLevel::Medium => "Moderate strain: take periodic breaks and check your posture.",
        RiskLevel::Low => "Your current keyboard usage looks fine.",
    };
    s.to_owned()
}


/// The gap, in seconds, above which a pause ends a session.
pub const DEFAULT_MAX_GAP_SECONDS: i64 = 300;

/// The timestamps of `evs`, in storage order.
pub open spec fn instants_of(evs: Seq<KeyboardEventRecord>) -> Seq<i64> {
    evs.map_values(|e: KeyboardEventRecord| e.timestamp.epoch_secs)
}

/// `ts` is `orig` in ascending order.
pub open spec fn sorted_version(ts: Seq<i64>, orig: Seq<i64>) -> bool {
    sorted_instants(ts) && ts.to_multiset() == orig.to_multiset()
}

/// Relies on `slice::sort`: the same items, in ascending order.
#[verifier::external_body]
fn sort_instants(v: &mut Vec<i64>)
    ensures
        sorted_version(final(v)@, old(v)@),
{
    v.sort()
}

fn instants(evs: &Vec<KeyboardEventRecord>) -> (r: Vec<i64>)
    ensures
        r@ == instants_of(evs@),
{
    let mut out: Vec<i64> = Vec::new();
    let mut i: usize = 0;
    while i < evs.len()
        invariant
            i <= evs@.len(),
            out@ == instants_of(evs@.subrange(0, i as int)),
        decreases evs@.len() - i,
    {
        out.push(evs[i].timestamp.epoch_secs);
        i = i + 1;
        assert(out@ == instants_of(evs@.subrange(0, i as int)));
    }
    assert(evs@.subrange(0, i as int) == evs@);
    out
}

/// The sessions of `[start, end)`: the timestamps of its events in
/// ascending order, grouped by `sessions_of`.
pub fn identify_continuous_typing_sessions(store: &EventStore, start: i64, end: i64, max_gap_seconds: i64) -> (r: Vec<Session>)
    ensures
        exists|ts: Seq<i64>|
            #[trigger] sorted_version(ts, instants_of(events_between(store.events(), start, end)))
                && r@ == sessions_of(ts, max_gap_seconds),
{
    let evs = events_in_window(store, start, end);
    let mut ts = instants(&evs);
    sort_instants(&mut ts);
    sessions_from_sorted(&ts, max_gap_seconds)
}

/// The days a window spans, at least one.
pub open spec fn days_of(start: i64, end: i64) -> Ratio {
    if end - start >= 86400 {
        Ratio { num: (end - start) as u128, den: 86400 }
    } else {
        Ratio { num: 1, den: 1 }
    }
}

/// `n` per day of the window, with at least one day.
pub open spec fn per_day(n: nat, start: i64, end: i64) -> Ratio {
    if end - start >= 86400 {
        Ratio { num: (n * 86400) as u128, den: (end - start) as u128 }
    } else {
        Ratio { num: n as u128, den: 1 }
    }
}

/// The mean session length in seconds; none without sessions.
pub open spec fn mean_duration(s: Seq<Session>) -> Ratio {
    if s.len() == 0 {
        Ratio { num: 0, den: 1 }
    } else {
        Ratio { num: duration_sum(s) as u128, den: s.len() as u128 }
    }
}

fn days_ratio(start: i64, end: i64) -> (r: Ratio)
    ensures
        r == days_of(start, end),
{
    let span: i128 = end as i128 - start as i128;
    if span >= 86400 {
        Ratio { num: span as u128, den: 86400 }
    } else {
        Ratio { num: 1, den: 1 }
    }
}

fn per_day_ratio(n: u64, start: i64, end: i64) -> (r: Ratio)
    ensures
        r == per_day(n as nat, start, end),
{
    let span: i128 = end as i128 - start as i128;
    if span >= 86400 {
        Ratio { num: n as u128 * 86400, den: span as u128 }
    } else {
        Ratio { num: n as u128, den: 1 }
    }
}

/// Usage metrics of a window for the health assessment.
#[derive(Clone, Debug)]
pub struct HealthMetrics {
    pub total_key_count: u64,
    pub days_analyzed: Ratio,
    pub daily_avg_keys: Ratio,
    pub avg_kpm: Ratio,
    pub total_sessions: u64,
    pub long_sessions_count: u64,
    pub avg_session_duration_seconds: Ratio,
    pub long_sessions: Vec<Session>,
    pub long_sessions_per_day: Ratio,
}

/// `m` holds the metrics of `[start, end)` given its sessions `s`.
pub open spec fn health_match(evs: Seq<KeyboardEventRecord>, m: HealthMetrics, start: i64, end: i64, s: Seq<Session>) -> bool {
    let win = events_between(evs, start, end);
    &&& m.total_key_count == win.len()
    &&& m.days_analyzed == days_of(start, end)
    &&& m.daily_avg_keys == per_day(win.len(), start, end)
    &&& m.avg_kpm == kpm_of(win.len(), start, end)
    &&& m.total_sessions == s.len()
    &&& m.long_sessions@ == long_sessions_of(s)
    &&& m.long_sessions_count == long_sessions_of(s).len()
    &&& m.avg_session_duration_seconds == mean_duration(s)
    &&& m.long_sessions_per_day == per_day(long_sessions_of(s).len(), start, end)
}

proof fn lemma_long_len(s: Seq<Session>)
    ensures
        long_sessions_of(s).len() <= s.len(),
    decreases s.len(),
{
    if s.len() > 0 {
        lemma_long_len(s.drop_last());
    }
}

/// The health metrics of `[start, end)`, with sessions split at pauses
/// above five minutes.
pub fn calculate_health_risk_metrics(store: &EventStore, start: i64, end: i64) -> (r: HealthMetrics)
    ensures
        exists|ts: Seq<i64>|
            #[trigger] sorted_version(ts, instants_of(events_between(store.events(), start, end)))
                && health_match(store.events(), r, start, end, sessions_of(ts, DEFAULT_MAX_GAP_SECONDS)),
{
    let evs = events_in_window(store, start, end);
    let total = evs.len() as u64;
    let mut ts = instants(&evs);
    sort_instants(&mut ts);
    let sessions = sessions_from_sorted(&ts, DEFAULT_MAX_GAP_SECONDS);
    let long = long_sessions(&sessions);
    proof {
        lemma_long_len(sessions@);
    }
    let duration = total_duration(&sessions);
    let mean = if sessions.len() == 0 {
        Ratio { num: 0, den: 1 }
    } else {
        Ratio { num: duration, den: sessions.len() as u128 }
    };
    let long_count = long.len() as u64;
    let m = HealthMetrics {
        total_key_count: total,
        days_analyzed: days_ratio(start, end),
        daily_avg_keys: per_day_ratio(total, start, end),
        avg_kpm: average_kpm(total, start, end),
        total_sessions: sessions.len() as u64,
        long_sessions_count: long_count,
        avg_session_duration_seconds: mean,
        long_sessions: long,
        long_sessions_per_day: per_day_ratio(long_count, start, end),
    };
    assert(sorted_version(ts@, instants_of(events_between(store.events(), start, end))));
    m
}

} // verus!

verus! {

/// The window the health metrics cover at `now`: from the earliest event
/// (thirty days back when there is none) to `now`.
pub open spec fn health_window_of(first: Option<i64>, now: i64) -> TimeWindow {
    match first {
        Some(t) => TimeWindow { start: t, end: now },
        None => TimeWindow { start: (now - 30 * crate::clock::DAY_SECS) as i64, end: now },
    }
}

pub fn health_window(first: Option<i64>, now: i64) -> (r: TimeWindow)
    requires
        clock_reading(now),
    ensures
        r == health_window_of(first, now),
{
    match first {
        Some(t) => TimeWindow { start: t, end: now },
        None => TimeWindow { start: now - 30 * crate::clock::DAY_SECS, end: now },
    }
}

/// `m` holds the metrics of the health window at `now`, whose timestamps in
/// ascending order are `ts`.
pub open spec fn health_at(evs: Seq<KeyboardEventRecord>, m: HealthMetrics, now: i64, ts: Seq<i64>) -> bool {
    let w = health_window_of(earliest(evs), now);
    sorted_version(ts, instants_of(events_between(evs, w.start, w.end)))
        && health_match(evs, m, w.start, w.end, sessions_of(ts, DEFAULT_MAX_GAP_SECONDS))
}

/// The health metrics of the whole record up to the current instant.
pub fn get_health_risk_metrics(store: &EventStore) -> (r: HealthMetrics)
    ensures
        exists|now: i64, ts: Seq<i64>| clock_reading(now) && #[trigger] health_at(store.events(), r, now, ts),
{
    let now = now_epoch_secs();
    let w = health_window(store.earliest_event_time(), now);
    let m = calculate_health_risk_metrics(store, w.start, w.end);
    proof {
        let ts = choose|ts: Seq<i64>|
            #[trigger] sorted_version(ts, instants_of(events_between(store.events(), w.start, w.end)))
                && health_match(store.events(), m, w.start, w.end, sessions_of(ts, DEFAULT_MAX_GAP_SECONDS));
        assert(health_at(store.events(), m, now, ts));
    }
    m
}

} // verus!
