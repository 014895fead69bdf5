//! Log levels of the diagnostic output.

use vstd::prelude::*;

verus! {

/// Log levels for the different kinds of diagnostic information.
#[derive(Debug, Clone, Copy, PartialEq, Eq, Structural)]
pub enum LogLevel {
    Info,
    Warn,
    Error,
    Trace,
}

/// The label of a log level.
pub open spec fn level_text(l: LogLevel) -> Seq<char> {
    match l {
        LogLevel::Info => "INFO"@,
        LogLevel::Warn => "WARN"@,
        LogLevel::Error => "ERROR"@,
        LogLevel::Trace => "TRACE"@,
    }
}

impl LogLevel {
    /// The label of the level: `INFO`, `WARN`, `ERROR` or `TRACE`.
    pub fn as_str(&self) -> (r: &'static str)
        ensures
            r@ == level_text(*self),
    {
        match self {
            LogLevel::Info => "INFO",
            LogLevel::Warn => "WARN",
            LogLevel::Error => "ERROR",
            LogLevel::Trace => "TRACE",
        }
    }
}

} // verus!
