use vstd::prelude::*;

verus! {

/// The verbosity in force when none was set.
pub const DEFAULT_VERBOSITY: usize = 1;

/// The verbosity level for a count of `-v` flags less the `-q` flags:
/// the count itself, and 0 for a negative one.
pub fn verbosity_set(verbosity: isize) -> (r: usize)
    ensures
        r == if verbosity < 0 {
            0
        } else {
            verbosity as int
        },
{
    if verbosity < 0 {
        0
    } else {
        verbosity as usize
    }
}

/// The verbosity level in force: the one that was set, or 1.
pub fn verbosity(level: Option<usize>) -> (r: usize)
    ensures
        r == match level {
            Some(v) => v,
            None => DEFAULT_VERBOSITY,
        },
{
    match level {
        Some(v) => v,
        None => DEFAULT_VERBOSITY,
    }
}

/// The kinds of log line.
#[derive(Clone, Copy, Debug, PartialEq, Eq, Structural)]
pub enum LogKind {
    /// An error; always written.
    Error,
    /// A warning; written from verbosity 1.
    Warning,
    /// Information; written from verbosity 2.
    Info,
    /// Detail for debugging; written from verbosity 3.
    Debug,
}

/// Whether a line of kind `kind` is written at verbosity `level`.
pub fn log_enabled(kind: LogKind, level: usize) -> (r: bool)
    ensures
        r == match kind {
            LogKind::Error => true,
            LogKind::Warning => 0 < level,
            LogKind::Info => 1 < level,
            LogKind::Debug => 2 < level,
        },
{
    match kind {
        LogKind::Error => true,
        LogKind::Warning => 0 < level,
        LogKind::Info => 1 < level,
        LogKind::Debug => 2 < level,
    }
}

} // verus!
