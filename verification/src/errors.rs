use vstd::prelude::*;

verus! {

/// The OS-level cause carried inside a filesystem failure.
#[derive(Clone, Copy, PartialEq, Eq, Structural, Debug)]
pub enum FsCause {
    NotFound,
    PermissionDenied,
    AlreadyExists,
    Io,
}

/// Every failure the engine reports. No operation panics: each either
/// succeeds with a defined result or returns one of these.
#[derive(PartialEq, Eq, Debug)]
pub enum EngineError {
    /// An underlying OS call failed on the given path.
    Filesystem { path: String, cause: FsCause },
    /// A selection index did not point into the current listing.
    IndexOutOfRange,
    /// The requested operation is not supported (directory copy).
    UnsupportedOperation,
    /// The bounded name-conflict search ran out of candidates.
    NameSpaceExhausted,
}

} // verus!
