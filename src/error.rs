use vstd::prelude::*;

verus! {

/// What can go wrong while gathering statistics.
#[derive(Debug, PartialEq, Eq)]
pub enum StatsError {
    /// A quoted argument was not valid text.
    Encoding,
    /// The shell that runs a command could not be started.
    Launch,
    /// A command ran and exited with a non-zero status.
    Subprocess { command: String },
    /// A command printed something that was not the number it owes.
    Parse { command: String },
    /// A total does not fit in a machine word.
    Overflow { command: String },
}

} // verus!
