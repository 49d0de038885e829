//! The program's options, and the log level they ask for.
use vstd::prelude::*;

verus! {

/// A midi event sink that prints the event to stdout.
pub struct Opt {
    /// How verbose should we be (normal = info, 1 = debug, 2+ = trace).
    pub verbosity: u32,
    /// A custom name for the adapter in jack. This will be used by e.g. LADISH to reconnect this
    /// widget when it appears.
    pub jack_name: String,
}

/// How much the program logs, from least to most.
#[derive(Debug, Clone, Copy, PartialEq, Eq, Structural)]
pub enum Verbosity {
    Info,
    Debug,
    Trace,
}

/// The level that a verbosity count selects.
pub open spec fn spec_level(verbosity: u32) -> Verbosity {
    if verbosity == 0 {
        Verbosity::Info
    } else if verbosity == 1 {
        Verbosity::Debug
    } else {
        Verbosity::Trace
    }
}

impl Opt {
    /// The log level for this program's own messages: info by default, debug for one `-v`,
    /// trace for more.
    pub fn log_level(&self) -> (l: Verbosity)
        ensures
            l == spec_level(self.verbosity),
    {
        match self.verbosity {
            0 => Verbosity::Info,
            1 => Verbosity::Debug,
            _ => Verbosity::Trace,
        }
    }
}

} // verus!
