//! Severity levels of log entries and the filter on them.

use vstd::prelude::*;
use vstd::string::*;
use crate::text::{lowercased, str_eq, to_lowercase};

verus! {

/// Severity of a log entry, from the least to the most severe.
#[derive(Clone, Copy, Debug, PartialEq, Eq, Structural)]
pub enum LogLevel {
    Debug,
    Info,
    Warn,
    Error,
}

impl LogLevel {
    /// The level that a lower-case name denotes; an unknown name counts
    /// as `Info`.
    pub open spec fn of_lowercase(lower: Seq<char>) -> LogLevel {
        if lower == "debug"@ {
            LogLevel::Debug
        } else if lower == "info"@ {
            LogLevel::Info
        } else if lower == "warn"@ {
            LogLevel::Warn
        } else if lower == "error"@ {
            LogLevel::Error
        } else {
            LogLevel::Info
        }
    }

    /// The position of the level in the order of severity.
    pub open spec fn severity(self) -> int {
        match self {
            LogLevel::Debug => 0,
            LogLevel::Info => 1,
            LogLevel::Warn => 2,
            LogLevel::Error => 3,
        }
    }

    /// Reads a level name that is already in lower case.
    pub fn from_lowercase(lower: &str) -> (r: LogLevel)
        ensures
            r == Self::of_lowercase(lower@),
    {
        if str_eq(lower, "debug") {
            LogLevel::Debug
        } else if str_eq(lower, "info") {
            LogLevel::Info
        } else if str_eq(lower, "warn") {
            LogLevel::Warn
        } else if str_eq(lower, "error") {
            LogLevel::Error
        } else {
            LogLevel::Info
        }
    }

    /// Reads a level name without regard to case.
    pub fn from_str(s: &str) -> (r: LogLevel)
        ensures
            r == Self::of_lowercase(lowercased(s@)),
    {
        let lower = to_lowercase(s);
        Self::from_lowercase(lower.as_str())
    }

    /// Whether an entry of this level passes a filter set to `min_level`.
    pub fn passes(&self, min_level: &LogLevel) -> (r: bool)
        ensures
            r == (self.severity() >= min_level.severity()),
    {
        let a: u8 = match self {
            LogLevel::Debug => 0,
            LogLevel::Info => 1,
            LogLevel::Warn => 2,
            LogLevel::Error => 3,
        };
        let b: u8 = match min_level {
            LogLevel::Debug => 0,
            LogLevel::Info => 1,
            LogLevel::Warn => 2,
            LogLevel::Error => 3,
        };
        a >= b
    }
}

} // verus!
