//! The lines of the log of the two-language switcher.

use vstd::prelude::*;
use vstd::string::StringExecFns;

use crate::logger::{self, fmt_elapsed, Elapsed, LogLevel};

verus! {

/// A line of the log in the making.
#[derive(Debug)]
pub struct LogMessage {
    pub level: LogLevel,
    pub message: String,
    pub elapsed: Elapsed,
}

/// Makes a line of the log, for the thread that writes them.
pub fn write(level: LogLevel, msg: String, elapsed: Elapsed) -> (r: LogMessage)
    ensures
        r == (LogMessage { level, message: msg, elapsed }),
{
    LogMessage { level, message: msg, elapsed }
}

/// Writes a line of the log.
pub fn log_line(m: &LogMessage) -> (r: String)
    ensures
        r@ == "["@ + logger::stamp(m.elapsed) + "] ["@ + m.level.name() + "] "@ + m.message@,
{
    let mut out: String = "[".to_owned();
    out.append(fmt_elapsed(m.elapsed).as_str());
    out.append("] [");
    out.append(m.level.as_str());
    out.append("] ");
    out.append(m.message.as_str());
    out
}

} // verus!
