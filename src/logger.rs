//! How the mail gateway's processes set up logging.

use vstd::prelude::*;

verus! {

/// A log level.
#[derive(Clone, Copy, Debug, PartialEq, Eq, Structural)]
pub enum LogLevel {
    Error,
    Warn,
    Info,
    Debug,
    Trace,
}

/// The environment variable that sets the log level, and the level where it is unset.
pub struct LogSetup {
    pub env_var: String,
    pub default_level: LogLevel,
}

/// The logging setup of the mail gateway: the level comes from `PMG_LOG`, and is `info`
/// where that is not set.
pub fn init() -> (r: LogSetup)
    ensures
        r.env_var@ == "PMG_LOG"@,
        r.default_level == LogLevel::Info,
{
    LogSetup { env_var: "PMG_LOG".to_owned(), default_level: LogLevel::Info }
}

} // verus!
