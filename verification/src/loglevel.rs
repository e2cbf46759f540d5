//! The process's log verbosity, chosen by the `LOG_LEVEL` environment
//! value: `DEBUG` and `TRACE` by name, anything else (including an unset
//! variable) the default `INFO`.

use vstd::prelude::*;
use vstd::string::StringExecFns;

verus! {

#[derive(Clone, Copy, Debug, PartialEq, Eq, Structural)]
pub enum LogLevel {
    Info,
    Debug,
    Trace,
}

/// The level a verbosity name selects.
pub open spec fn level_for(s: Seq<char>) -> LogLevel {
    if s == "DEBUG"@ {
        LogLevel::Debug
    } else if s == "TRACE"@ {
        LogLevel::Trace
    } else {
        LogLevel::Info
    }
}

/// Map the `LOG_LEVEL` environment value to the level it names.
pub fn log_level_from_env(level: &String) -> (r: LogLevel)
    ensures
        r == level_for(level@),
{
    let debug = String::from_str("DEBUG");
    let trace = String::from_str("TRACE");
    if level.eq(&debug) {
        LogLevel::Debug
    } else if level.eq(&trace) {
        LogLevel::Trace
    } else {
        LogLevel::Info
    }
}

} // verus!
