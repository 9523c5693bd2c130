//! Severity levels and their total order.

use vstd::prelude::*;

verus! {

/// One of the five severities a log entry can carry, ordered from the
/// chattiest (`Verbose`) to the gravest (`Critical`).
#[derive(PartialEq, Eq, Structural, PartialOrd, Ord, Clone, Copy, Debug)]
pub enum LogLevel {
    Verbose,
    Info,
    Warn,
    Error,
    Critical,
}

/// Position of a level in the total order
/// `Verbose < Info < Warn < Error < Critical`.
pub open spec fn spec_rank(level: LogLevel) -> int {
    match level {
        LogLevel::Verbose => 0,
        LogLevel::Info => 1,
        LogLevel::Warn => 2,
        LogLevel::Error => 3,
        LogLevel::Critical => 4,
    }
}

/// `a` is at least as severe as `b`.
pub open spec fn spec_at_least(a: LogLevel, b: LogLevel) -> bool {
    spec_rank(a) >= spec_rank(b)
}

/// The canonical display name of a level.
pub open spec fn spec_level_name(level: LogLevel) -> Seq<char> {
    match level {
        LogLevel::Verbose => "Verbose"@,
        LogLevel::Info => "Info"@,
        LogLevel::Warn => "Warn"@,
        LogLevel::Error => "Error"@,
        LogLevel::Critical => "Critical"@,
    }
}

/// The level a textual name stands for; an unrecognized name means `Info`.
pub open spec fn spec_level_of_name(name: Seq<char>) -> LogLevel {
    if name == "Verbose"@ {
        LogLevel::Verbose
    } else if name == "Info"@ {
        LogLevel::Info
    } else if name == "Warn"@ {
        LogLevel::Warn
    } else if name == "Error"@ {
        LogLevel::Error
    } else if name == "Critical"@ {
        LogLevel::Critical
    } else {
        LogLevel::Info
    }
}

impl LogLevel {
    /// Checks if the current log level is at least as severe as the provided
    /// level.
    pub fn is_at_least(&self, level: LogLevel) -> (r: bool)
        ensures
            r == spec_at_least(*self, level),
    {
        match level {
            LogLevel::Verbose => true,
            LogLevel::Info => *self != LogLevel::Verbose,
            LogLevel::Warn => *self != LogLevel::Verbose && *self != LogLevel::Info,
            LogLevel::Error => *self != LogLevel::Verbose && *self != LogLevel::Info && *self
                != LogLevel::Warn,
            LogLevel::Critical => *self == LogLevel::Critical,
        }
    }

    /// Parses a level from its canonical name; an unrecognized name falls
    /// back to `Info` rather than failing.
    pub fn from_str(level: &str) -> (r: LogLevel)
        ensures
            r == spec_level_of_name(level@),
    {
        if str_eq(level, "Verbose") {
            LogLevel::Verbose
        } else if str_eq(level, "Info") {
            LogLevel::Info
        } else if str_eq(level, "Warn") {
            LogLevel::Warn
        } else if str_eq(level, "Error") {
            LogLevel::Error
        } else if str_eq(level, "Critical") {
            LogLevel::Critical
        } else {
            LogLevel::Info
        }
    }

    /// The canonical display name of the level.
    pub fn name(&self) -> (r: &'static str)
        ensures
            r@ == spec_level_name(*self),
    {
        match *self {
            LogLevel::Verbose => "Verbose",
            LogLevel::Info => "Info",
            LogLevel::Warn => "Warn",
            LogLevel::Error => "Error",
            LogLevel::Critical => "Critical",
        }
    }
}

impl Default for LogLevel {
    /// The default severity is `Info`.
    fn default() -> (r: Self)
        ensures
            r == LogLevel::Info,
    {
        LogLevel::Info
    }
}

/// Compares two string slices by their character contents.
fn str_eq(a: &str, b: &str) -> (r: bool)
    ensures
        r == (a@ == b@),
{
    let sa: String = a.to_owned();
    let sb: String = b.to_owned();
    sa == sb
}

/// `Critical` is at least as severe as every level, while `Verbose` is at
/// least as severe only as itself.
pub proof fn lemma_severity_extremes(x: LogLevel)
    ensures
        spec_at_least(LogLevel::Critical, x),
        spec_at_least(LogLevel::Verbose, x) <==> x == LogLevel::Verbose,
{
}

} // verus!
