//! How much is logged.

use crate::text::{append_str, chars_of, string_of};
use vstd::prelude::*;

verus! {

/// The levels of logging, from the most talkative to the least.
#[derive(Clone, Copy, Debug, PartialEq, Eq, Structural)]
pub enum LogLevel {
    Trace,
    Debug,
    Info,
    Warn,
    Error,
}

impl LogLevel {
    /// The name of the level.
    pub open spec fn name_spec(self) -> Seq<char> {
        match self {
            LogLevel::Trace => "Trace"@,
            LogLevel::Debug => "Debug"@,
            LogLevel::Info => "Info"@,
            LogLevel::Warn => "Warn"@,
            LogLevel::Error => "Error"@,
        }
    }

    pub fn name(&self) -> (s: &'static str)
        ensures
            s@ == self.name_spec(),
    {
        match self {
            LogLevel::Trace => "Trace",
            LogLevel::Debug => "Debug",
            LogLevel::Info => "Info",
            LogLevel::Warn => "Warn",
            LogLevel::Error => "Error",
        }
    }
}

/// The filter that lets the messages of this library through at `level`.
pub fn filter_directive(level: LogLevel) -> (r: String)
    ensures
        r@ == "vuln_lsp="@ + level.name_spec(),
{
    let mut out = chars_of("vuln_lsp=");
    append_str(&mut out, level.name());
    string_of(&out)
}

/// The filter for the tracing that was asked for: none where no level was
/// given.
pub fn enable_tracing(log_level: Option<LogLevel>) -> (r: Option<String>)
    ensures
        match (r, log_level) {
            (Some(filter), Some(level)) => filter@ == "vuln_lsp="@ + level.name_spec(),
            (None, None) => true,
            _ => false,
        },
{
    match log_level {
        Some(level) => Some(filter_directive(level)),
        None => None,
    }
}

} // verus!
