//! The typed failures a bookmark movement can end in.  Every step of an
//! operation fails fast with one of these; a lost race at commit time is
//! deliberately distinct from a storage fault, since it is safe to retry
//! the whole operation.

use vstd::prelude::*;

use crate::kind::BookmarkKind;
use crate::types::BookmarkName;

verus! {

/// Why the backing store could not execute a staged operation.
#[derive(Clone, Copy, PartialEq, Eq, Structural, Debug)]
pub enum StorageErrorCause {
    /// A create was staged for a name that already exists in its namespace:
    /// a create is not an upsert.
    PointerAlreadyExists,
    /// The auxiliary mapping already binds a changeset to a different
    /// identifier, so the hook's write cannot apply.
    AuxMappingConflict,
}

/// Terminal failure of a bookmark movement.
#[derive(Debug)]
pub enum BookmarkMovementError {
    /// The authorization evaluator rejected the acting principal for this
    /// bookmark.  Never retried internally.
    PermissionDenied { bookmark: BookmarkName },
    /// The resolved kind disagrees with the caller's declared restriction;
    /// both values are carried for diagnostics.
    KindMismatch { expected: BookmarkKind, actual: BookmarkKind },
    /// Incompatible policy combination: global numbering is enabled on a
    /// call path that populates the auxiliary mapping.  Fatal for this
    /// call, not retried.
    ConfigurationConflict,
    /// The backing store failed to execute a staged operation; surfaced
    /// unmodified.
    StorageError { cause: StorageErrorCause },
    /// The commit reported "not applied": a concurrent conflicting change
    /// won the race.  No partial effect was left; re-run the operation.
    TransactionFailed,
}

} // verus!
