//! What the command line supplies.

use vstd::prelude::*;

verus! {

/// How much of what happens is written to the log.
#[derive(Debug, Clone, Copy, PartialEq, Eq, Structural)]
pub enum LogLevel {
    Trace,
    Debug,
    Info,
    Warn,
    Error,
}

impl LogLevel {
    /// The level as it is written on the command line.
    pub open spec fn spec_name(self) -> Seq<char> {
        match self {
            LogLevel::Trace => "trace"@,
            LogLevel::Debug => "debug"@,
            LogLevel::Info => "info"@,
            LogLevel::Warn => "warn"@,
            LogLevel::Error => "error"@,
        }
    }

    /// Returns the level as it is written on the command line.
    pub fn name(&self) -> (r: &'static str)
        ensures
            r@ == self.spec_name(),
    {
        match self {
            LogLevel::Trace => "trace",
            LogLevel::Debug => "debug",
            LogLevel::Info => "info",
            LogLevel::Warn => "warn",
            LogLevel::Error => "error",
        }
    }
}

/// The arguments of one run.
#[derive(Debug)]
pub struct CmdArgs {
    /// The path of the settings file.
    pub config: String,
    /// The file that the log is written to, besides standard error.
    pub log_file: Option<String>,
    pub log_level: LogLevel,
    /// How many domains are worked on at the same time.
    pub thread_number: u8,
}

} // verus!
