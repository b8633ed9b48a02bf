//! Log-level selection for the command-line layer.

use vstd::prelude::*;

verus! {

/// Verbosity of the command-line logger, from silent to most verbose.
#[derive(Debug, Clone, Copy, PartialEq, Eq, Structural)]
pub enum LogLevel {
    Off,
    Error,
    Warn,
    Info,
    Debug,
}

/// The level selected by a number of verbosity flags.
pub open spec fn spec_filter_level(count: u64) -> LogLevel {
    if count == 0 {
        LogLevel::Off
    } else if count == 1 {
        LogLevel::Error
    } else if count == 2 {
        LogLevel::Warn
    } else if count == 3 {
        LogLevel::Info
    } else {
        LogLevel::Debug
    }
}

/// No flag is silent; one flag shows errors, two warnings, three notices,
/// and more than three debug output.
pub fn filter_level_occurences(count: u64) -> (level: LogLevel)
    ensures
        level == spec_filter_level(count),
{
    match count {
        0 => LogLevel::Off,
        1 => LogLevel::Error,
        2 => LogLevel::Warn,
        3 => LogLevel::Info,
        _ => LogLevel::Debug,
    }
}

} // verus!
