use vstd::prelude::*;

verus! {

/// Errors raised while building requests or reading responses.
#[derive(Debug, Clone, Copy, PartialEq, Eq, Structural)]
pub enum KvError {
    /// A malformed input: an empty key where one is required, a negative
    /// revision, or a wire integer that does not fit the host integer.
    InvalidArgument,
    /// A historical read asked for a revision that the store compacted away.
    RevisionCompacted,
    /// A response carried no header where its revision was asked for.
    MissingHeader,
}

} // verus!
