//! The time-window resolver: a range token becomes a concrete half-open
//! window, clamped to the first recorded event, with the window before it.
use vstd::prelude::*;
use crate::clock::{clock_reading, in_calendar, local_midnight, now_epoch_secs, DAY_SECS};
use crate::store::{earliest, EventStore, StatsError};
use crate::text::str_eq;

verus! {

pub const WEEK_SECS: i64 = 7 * DAY_SECS;

pub const MONTH_SECS: i64 = 30 * DAY_SECS;

pub const YEAR_SECS: i64 = 365 * DAY_SECS;

/// The symbolic ranges.
#[derive(Clone, Copy, Debug, PartialEq, Eq, Structural)]
pub enum TimeRange {
    Today,
    Week,
    Month,
    All,
}

/// A half-open interval `[start, end)` of seconds since the epoch.
#[derive(Clone, Copy, Debug, PartialEq, Eq, Structural)]
pub struct TimeWindow {
    pub start: i64,
    pub end: i64,
}

pub open spec fn range_of(token: Seq<char>) -> Option<TimeRange> {
    if token == "today"@ {
        Some(TimeRange::Today)
    } else if token == "week"@ {
        Some(TimeRange::Week)
    } else if token == "month"@ {
        Some(TimeRange::Month)
    } else if token == "all"@ {
        Some(TimeRange::All)
    } else {
        None
    }
}

/// Reads a range token; anything but `today`, `week`, `month`, `all` is
/// refused.
pub fn parse_range(token: &str) -> (r: Result<TimeRange, StatsError>)
    ensures
        range_of(token@) is Some ==> r == Ok::<TimeRange, StatsError>(range_of(token@)->0),
        range_of(token@) is None ==> r == Err::<TimeRange, StatsError>(StatsError::InvalidRange),
{
    if str_eq(token, "today") {
        Ok(TimeRange::Today)
    } else if str_eq(token, "week") {
        Ok(TimeRange::Week)
    } else if str_eq(token, "month") {
        Ok(TimeRange::Month)
    } else if str_eq(token, "all") {
        Ok(TimeRange::All)
    } else {
        Err(StatsError::InvalidRange)
    }
}

/// The instants this resolver computes with: far enough from the ends of
/// `i64` that a year and more can be subtracted.
pub open spec fn instant_in_range(t: i64) -> bool {
    i64::MIN / 2 <= t <= i64::MAX / 2
}

/// Local midnight is taken as the start of today when it lies within two
/// days before `now` (a local day may last 25 hours); otherwise `now` is.
pub open spec fn today_start(now: i64, midnight: Option<i64>) -> i64 {
    match midnight {
        Some(m) => if now - 2 * DAY_SECS <= m && m <= now {
            m
        } else {
            now
        },
        None => now,
    }
}

/// The start a range gives before clamping.
pub open spec fn computed_start(range: TimeRange, now: i64, midnight: Option<i64>) -> i64 {
    match range {
        TimeRange::Today => today_start(now, midnight),
        TimeRange::Week => (now - WEEK_SECS) as i64,
        TimeRange::Month => (now - MONTH_SECS) as i64,
        TimeRange::All => (now - YEAR_SECS) as i64,
    }
}

/// The window of a range at `now`: the computed start, moved up to the
/// earliest recorded event when there is one; the end is `now` (or the start,
/// should the earliest event lie after `now`).
pub open spec fn window_of(range: TimeRange, now: i64, midnight: Option<i64>, first: Option<i64>) -> TimeWindow {
    let c = computed_start(range, now, midnight);
    let s = match first {
        Some(t) => if t > c { t } else { c },
        None => c,
    };
    TimeWindow { start: s, end: if now >= s { now } else { s } }
}

/// The window before `w` for trend comparison: of equal length for today,
/// seven or thirty days for a week or a month, `w` itself for all.
pub open spec fn previous_of(range: TimeRange, w: TimeWindow) -> TimeWindow {
    match range {
        TimeRange::Today => TimeWindow { start: (w.start - (w.end - w.start)) as i64, end: w.start },
        TimeRange::Week => TimeWindow { start: (w.start - WEEK_SECS) as i64, end: w.start },
        TimeRange::Month => TimeWindow { start: (w.start - MONTH_SECS) as i64, end: w.start },
        TimeRange::All => w,
    }
}

/// Resolves a range at `now`, given local midnight of today and the earliest
/// recorded event.
pub fn resolve_window(range: TimeRange, now: i64, midnight: Option<i64>, first: Option<i64>) -> (r:
    TimeWindow)
    requires
        instant_in_range(now),
    ensures
        r == window_of(range, now, midnight, first),
        r.start <= r.end,
        r.end >= now,
        first is Some ==> r.start >= first->0,
        r.start >= now - YEAR_SECS,
        r.end - r.start <= YEAR_SECS,
{
    let c: i64 = match range {
        TimeRange::Today => match midnight {
            Some(m) => if now - 2 * DAY_SECS <= m && m <= now {
                m
            } else {
                now
            },
            None => now,
        },
        TimeRange::Week => now - WEEK_SECS,
        TimeRange::Month => now - MONTH_SECS,
        TimeRange::All => now - YEAR_SECS,
    };
    let s = match first {
        Some(t) => if t > c {
            t
        } else {
            c
        },
        None => c,
    };
    TimeWindow { start: s, end: if now >= s { now } else { s } }
}

/// The window before `w` of `range`, for trend comparison.
pub fn previous_window(range: TimeRange, w: TimeWindow) -> (r: TimeWindow)
    requires
        w.start <= w.end,
        i64::MIN + 2 * YEAR_SECS <= w.start,
        w.end - w.start <= YEAR_SECS,
    ensures
        r == previous_of(range, w),
        r.start <= r.end,
{
    match range {
        TimeRange::Today => TimeWindow { start: w.start - (w.end - w.start), end: w.start },
        TimeRange::Week => TimeWindow { start: w.start - WEEK_SECS, end: w.start },
        TimeRange::Month => TimeWindow { start: w.start - MONTH_SECS, end: w.start },
        TimeRange::All => w,
    }
}

/// A resolved range: the range and its window.
#[derive(Clone, Copy, Debug, PartialEq, Eq, Structural)]
pub struct RangeWindow {
    pub range: TimeRange,
    pub window: TimeWindow,
}

/// Local midnight of the date of `now`, when chrono can compute one.
pub fn today_midnight(now: i64) -> (r: Option<i64>)
    ensures
        !in_calendar(now) ==> r is None,
{
    if -crate::clock::CALENDAR_SECS <= now && now <= crate::clock::CALENDAR_SECS {
        local_midnight(now)
    } else {
        None
    }
}

/// The window of the range named by `token` at the current instant, clamped
/// to the earliest event of `store`. A known token always succeeds; whatever
/// the clock reads, the window is the one `window_of` gives for that instant
/// and some midnight.
pub fn get_adjusted_time_range(store: &EventStore, token: &str) -> (r: Result<RangeWindow, StatsError>)
    ensures
        range_of(token@) is None ==> r == Err::<RangeWindow, StatsError>(StatsError::InvalidRange),
        range_of(token@) is Some ==> r is Ok,
        r is Ok ==> range_of(token@) == Some(r->Ok_0.range) && exists|now: i64, midnight: Option<i64>|
            clock_reading(now) && instant_in_range(now) && r->Ok_0.window == #[trigger] window_of(
                r->Ok_0.range,
                now,
                midnight,
                earliest(store.events()),
            ),
{
    let range = match parse_range(token) {
        Ok(r) => r,
        Err(e) => return Err(e),
    };
    let now = now_epoch_secs();
    let midnight = today_midnight(now);
    let first = store.earliest_event_time();
    let window = resolve_window(range, now, midnight, first);
    Ok(RangeWindow { range, window })
}

/// Every instant the clock reports is one the resolver computes with, so the
/// laws below hold of every window `get_adjusted_time_range` returns.
pub proof fn lemma_clock_readings_resolve(t: i64)
    requires
        clock_reading(t),
    ensures
        instant_in_range(t),
{
}

/// For `all`, when the earliest event is less than a year old, the window
/// starts exactly at that event.
pub proof fn lemma_all_window_starts_at_first_event(now: i64, midnight: Option<i64>, first: i64)
    requires
        instant_in_range(now),
        now - YEAR_SECS < first,
    ensures
        window_of(TimeRange::All, now, midnight, Some(first)).start == first,
{
}

/// For `today`, the previous window ends where the current one starts and
/// lasts as long.
pub proof fn lemma_today_trend_symmetry(now: i64, midnight: Option<i64>, first: Option<i64>)
    requires
        instant_in_range(now),
    ensures
        ({
            let w = window_of(TimeRange::Today, now, midnight, first);
            let p = previous_of(TimeRange::Today, w);
            p.end == w.start && p.end - p.start == w.end - w.start
        }),
{
}

} // verus!
