//! How verbose the log is.

use vstd::prelude::*;

verus! {

/// The least severe log records that are kept.
#[derive(Debug, Clone, Copy, PartialEq, Eq, Structural)]
pub enum LogLevel {
    Info,
    Debug,
    Trace,
}

/// The level for a count of `-v` flags: none keeps information records,
/// one adds debugging records, more add everything.
pub fn verbosity_to_level(v: u8) -> (r: LogLevel)
    ensures
        v == 0 ==> r == LogLevel::Info,
        v == 1 ==> r == LogLevel::Debug,
        v >= 2 ==> r == LogLevel::Trace,
{
    match v {
        0 => LogLevel::Info,
        1 => LogLevel::Debug,
        _ => LogLevel::Trace,
    }
}

} // verus!
