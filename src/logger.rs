//! Log levels and their names.
use vstd::prelude::*;
use vstd::string::*;
use crate::text::str_eq;

verus! {

/// How serious a log message is, least first.
#[derive(Clone, Copy, Debug, PartialEq, Eq, Structural)]
pub enum LogLevel {
    Debug,
    Info,
    Warning,
    Error,
}

pub open spec fn level_name(l: LogLevel) -> Seq<char> {
    match l {
        LogLevel::Debug => "DEBUG"@,
        LogLevel::Info => "INFO"@,
        LogLevel::Warning => "WARNING"@,
        LogLevel::Error => "ERROR"@,
    }
}

/// The level an upper-case name denotes, `WARN` and `ERR` included.
pub open spec fn level_of_upper(u: Seq<char>) -> Option<LogLevel> {
    if u == "DEBUG"@ {
        Some(LogLevel::Debug)
    } else if u == "INFO"@ {
        Some(LogLevel::Info)
    } else if u == "WARNING"@ || u == "WARN"@ {
        Some(LogLevel::Warning)
    } else if u == "ERROR"@ || u == "ERR"@ {
        Some(LogLevel::Error)
    } else {
        None
    }
}

/// The upper-case form of a string.
pub uninterp spec fn upper_of(s: Seq<char>) -> Seq<char>;

/// Relies on `str::to_uppercase`: the upper-case form, which depends on the
/// characters alone.
#[verifier::external_body]
fn uppercase(s: &str) -> (r: String)
    ensures
        r@ == upper_of(s@),
{
    s.to_uppercase()
}

impl LogLevel {
    pub fn as_str(&self) -> (r: &'static str)
        ensures
            r@ == level_name(*self),
    {
        match self {
            LogLevel::Debug => "DEBUG",
            LogLevel::Info => "INFO",
            LogLevel::Warning => "WARNING",
            LogLevel::Error => "ERROR",
        }
    }

    /// The level of an upper-case name.
    pub fn from_upper(u: &str) -> (r: Option<LogLevel>)
        ensures
            r == level_of_upper(u@),
    {
        if str_eq(u, "DEBUG") {
            Some(LogLevel::Debug)
        } else if str_eq(u, "INFO") {
            Some(LogLevel::Info)
        } else if str_eq(u, "WARNING") || str_eq(u, "WARN") {
            Some(LogLevel::Warning)
        } else if str_eq(u, "ERROR") || str_eq(u, "ERR") {
            Some(LogLevel::Error)
        } else {
            None
        }
    }

    /// The level a name denotes, in any case.
    pub fn from_str(s: &str) -> (r: Option<LogLevel>)
        ensures
            r == level_of_upper(upper_of(s@)),
    {
        let u = uppercase(s);
        Self::from_upper(u.as_str())
    }
}

} // verus!
