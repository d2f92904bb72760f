//! A diagnostics threshold handed explicitly into core calls: the core only
//! decides which messages qualify; emitting them is the caller's business.

use vstd::prelude::*;

verus! {

/// Message severities, `DEBUG` below `INFO`.
#[derive(Debug, PartialEq, Eq, PartialOrd, Ord, Clone, Copy, Structural)]
pub enum LogLevel {
    DEBUG,
    INFO,
}

/// Numeric rank of a log level.
pub open spec fn log_level_rank(l: LogLevel) -> int {
    match l {
        LogLevel::DEBUG => 0,
        LogLevel::INFO => 1,
    }
}

/// A threshold for diagnostics: messages at or above `log_level` qualify.
#[derive(Debug, Clone, Copy)]
pub struct Logger {
    pub log_level: LogLevel,
}

impl Logger {
    /// A logger that passes messages at or above `log_level`.
    pub fn new(log_level: LogLevel) -> (r: Logger)
        ensures
            r.log_level == log_level,
    {
        Logger { log_level }
    }

    /// Does a message at `message_level` qualify under this threshold?
    pub fn logs_at(&self, message_level: LogLevel) -> (r: bool)
        ensures
            r == (log_level_rank(self.log_level) <= log_level_rank(message_level)),
    {
        let own: u8 = match self.log_level {
            LogLevel::DEBUG => 0,
            LogLevel::INFO => 1,
        };
        let msg: u8 = match message_level {
            LogLevel::DEBUG => 0,
            LogLevel::INFO => 1,
        };
        own <= msg
    }
}

} // verus!
