//! What is wrong with data that the library refuses to build on.

use vstd::prelude::*;

verus! {

/// A defect in the data that a level is set up with. It is found when the
/// data is taken in, never while the game runs.
#[derive(Clone, Copy, Debug, PartialEq, Eq, Hash, Structural)]
pub enum ConfigurationError {
    /// A clip does not end after its start.
    MalformedClip,
    /// A clip index names no clip of the list.
    UnknownClip,
    /// A zone does not have exactly four answers.
    AnswerCount,
}

} // verus!
