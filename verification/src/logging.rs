//! Log levels
use vstd::prelude::*;

verus! {

/// How much is logged
#[derive(Debug, Clone, Copy, PartialEq, Eq, Structural)]
pub enum LogLevel {
    /// Warnings and errors
    Warn,
    /// Also what goes on
    Info,
    /// Also what helps to find a fault
    Debug,
    /// Everything
    Trace,
}

/// The log level for a verbosity as it is given on the command line
pub fn log_level(verbose: u8) -> (r: LogLevel)
    ensures
        r == if verbose == 0 {
            LogLevel::Warn
        } else if verbose == 1 {
            LogLevel::Info
        } else if verbose == 2 {
            LogLevel::Debug
        } else {
            LogLevel::Trace
        },
{
    match verbose {
        0 => LogLevel::Warn,
        1 => LogLevel::Info,
        2 => LogLevel::Debug,
        _ => LogLevel::Trace,
    }
}

/// The more verbose, the more is logged: nothing but warnings at first, then one level more each
/// time, and everything from three on.
pub proof fn law_verbosity_raises_the_level(verbose: u8, level: LogLevel)
    requires
        call_ensures(log_level, (verbose,), level),
    ensures
        level is Warn <==> verbose == 0,
        level is Info <==> verbose == 1,
        level is Debug <==> verbose == 2,
        level is Trace <==> verbose >= 3,
{
}

} // verus!
