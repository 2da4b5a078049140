//! What the command line of the gateway says.

use vstd::prelude::*;

verus! {

/// The arguments of the gateway.
#[derive(Debug, Clone, PartialEq, Eq)]
pub struct Cli {
    /// How often the switch for more logging was given.
    pub verbose: u8,
    /// The path of the configuration file.
    pub config_path: String,
}

/// How much is logged.
#[derive(Debug, Clone, Copy, PartialEq, Eq)]
pub enum LogLevel {
    Info,
    Debug,
    Trace,
}

impl Cli {
    /// How much is logged: more with every switch, up to two.
    pub fn log_level(&self) -> (level: LogLevel)
        ensures
            level == match self.verbose {
                0 => LogLevel::Info,
                1 => LogLevel::Debug,
                _ => LogLevel::Trace,
            },
    {
        match self.verbose {
            0 => LogLevel::Info,
            1 => LogLevel::Debug,
            _ => LogLevel::Trace,
        }
    }
}

} // verus!
