use vstd::prelude::*;

verus! {

/// Why staging lines failed.
#[derive(Clone, Copy, Debug, PartialEq, Eq, Structural)]
pub enum StageError {
    /// The path has no index entry, even after one was added for it.
    NotFound,
    /// A selected line is not a line of the hunks it was chosen from.
    MalformedSelection,
    /// The new content is too large for the size field of an index entry.
    ContentTooLarge,
}

} // verus!
