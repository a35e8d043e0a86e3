//! Instants as the analytics read them: seconds since the Unix epoch together
//! with the local hour, weekday and day of month.
use vstd::prelude::*;

verus! {

/// One day in seconds.
pub const DAY_SECS: i64 = 86400;

/// An upper bound on the instants the clock reports: chrono's calendar ends
/// in the year 262142, about 8.21e12 seconds after the epoch.
pub const CLOCK_MAX_SECS: i64 = 8_300_000_000_000;

/// Instants at most this far from the epoch lie well inside chrono's
/// calendar, whatever the local offset.
pub const CALENDAR_SECS: i64 = 8_000_000_000_000;

/// An instant the clock can report: not before the epoch, not after the end
/// of chrono's calendar.
pub open spec fn clock_reading(t: i64) -> bool {
    0 <= t <= CLOCK_MAX_SECS
}

/// An instant whose local date chrono can compute.
pub open spec fn in_calendar(t: i64) -> bool {
    -CALENDAR_SECS <= t <= CALENDAR_SECS
}

/// An instant and its local calendar fields.
#[derive(Clone, Copy, Debug, PartialEq, Eq, Structural)]
pub struct LocalTime {
    /// Seconds since 1970-01-01T00:00:00Z.
    pub epoch_secs: i64,
    /// Local hour, 0 to 23.
    pub hour: u8,
    /// Local day of the week, 0 (Sunday) to 6.
    pub weekday: u8,
    /// Local day of the month, 1 to 31.
    pub day: u8,
}

impl LocalTime {
    pub open spec fn wf(&self) -> bool {
        self.hour < 24 && self.weekday < 7 && 1 <= self.day <= 31
    }

    /// Builds an instant from its parts; `None` when a field is out of range.
    pub fn from_parts(epoch_secs: i64, hour: u8, weekday: u8, day: u8) -> (r: Option<LocalTime>)
        ensures
            r is Some <==> (hour < 24 && weekday < 7 && 1 <= day <= 31),
            r is Some ==> r->0 == (LocalTime { epoch_secs, hour, weekday, day }),
    {
        if hour < 24 && weekday < 7 && 1 <= day && day <= 31 {
            Some(LocalTime { epoch_secs, hour, weekday, day })
        } else {
            None
        }
    }

    /// The instant `epoch_secs` with the fields of the machine's local time
    /// zone; `None` when the calendar cannot represent it.
    pub fn from_epoch(epoch_secs: i64) -> (r: Option<LocalTime>)
        ensures
            r is Some ==> r->0.wf() && r->0.epoch_secs == epoch_secs,
            in_calendar(epoch_secs) ==> r is Some,
    {
        local_fields(epoch_secs)
    }
}

/// Relies on chrono's `DateTime::from_timestamp`, `with_timezone(&Local)`,
/// `hour`, `weekday().num_days_from_sunday` and `day`: the local hour (0 to
/// 23), weekday (0 to 6, Sunday first) and day of month (1 to 31).
/// `from_timestamp` fails only outside chrono's calendar, years -262143 to
/// 262142; the field accessors go through the overflow-safe local time.
#[verifier::external_body]
fn local_fields(secs: i64) -> (r: Option<LocalTime>)
    ensures
        r is Some ==> r->0.wf() && r->0.epoch_secs == secs,
        in_calendar(secs) ==> r is Some,
{
    match chrono::DateTime::from_timestamp(secs, 0) {
        Some(t) => {
            let l = t.with_timezone(&chrono::Local);
            Some(LocalTime {
                epoch_secs: secs,
                hour: chrono::Timelike::hour(&l) as u8,
                weekday: chrono::Datelike::weekday(&l).num_days_from_sunday() as u8,
                day: chrono::Datelike::day(&l) as u8,
            })
        },
        None => None,
    }
}

/// Relies on chrono's `Local::now`, which is `Utc::now`: the current instant
/// in seconds. `Utc::now` takes the seconds since the epoch (a `u64`, so not
/// negative) and unwraps `DateTime::from_timestamp`, which fails past the end
/// of the calendar.
#[verifier::external_body]
pub(crate) fn now_epoch_secs() -> (r: i64)
    ensures
        clock_reading(r),
{
    chrono::Local::now().timestamp()
}

/// Relies on chrono's `date_naive`, `and_hms_opt(0, 0, 0)` and
/// `Local.from_local_datetime(..).single()`: the instant of local midnight
/// on the local date of `secs`, when there is exactly one. `date_naive`
/// panics when the local time leaves the calendar, hence the bound.
#[verifier::external_body]
pub(crate) fn local_midnight(secs: i64) -> (r: Option<i64>)
    requires
        in_calendar(secs),
{
    let t = chrono::DateTime::from_timestamp(secs, 0)?.with_timezone(&chrono::Local);
    let m = t.date_naive().and_hms_opt(0, 0, 0)?;
    Some(chrono::TimeZone::from_local_datetime(&chrono::Local, &m).single()?.timestamp())
}

} // verus!
