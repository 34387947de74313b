//! What can go wrong in a scan.

use vstd::prelude::*;

verus! {

/// The ways in which a scan, or one step of it, fails.
#[derive(Debug, Clone, Copy, PartialEq, Eq, Structural)]
pub enum ScanError {
    /// A pattern is no regular expression. The run stops before any
    /// file is looked at.
    InvalidPattern,
    /// The directory to move or copy to does not exist and was not
    /// made. The run goes on and only lists.
    UnresolvedTarget,
    /// One file could not be renamed, copied or removed. The file is
    /// recorded as it was and the run goes on.
    PrimitiveFailure,
    /// The directory to scan does not exist. The run stops before any
    /// file is looked at.
    PathNotFound,
}

} // verus!
