use vstd::prelude::*;

verus! {

/// Severity of a log record.
#[allow(clippy::upper_case_acronyms)]
#[derive(Debug, Clone, Copy, PartialEq, Eq, Hash, Structural)]
pub enum Level {
    TRACE,
    DEBUG,
    INFO,
    WARNING,
    ERROR,
    FATAL,
}

/// Where log records go.
#[allow(clippy::upper_case_acronyms)]
#[derive(Debug, Clone, Copy, PartialEq, Eq, Hash, Structural)]
pub enum Destination {
    CONSOLE,
    LOCALFS,
}

} // verus!
