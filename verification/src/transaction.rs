//! The compare-and-set pointer transaction.
//!
//! A transaction stages at most one pointer creation, scoped to either the
//! scratch or the public namespace, and commits it atomically: the commit
//! is accepted exactly when the name is still absent from its namespace,
//! and a rejected commit ("lost race") leaves no effect at all.  A hook
//! committed with the transaction applies if and only if the pointer write
//! does.

use vstd::prelude::*;

use crate::aux_mapping::{aux_conflict, AuxMappingHook};
use crate::errors::{BookmarkMovementError, StorageErrorCause};
use crate::store::{BookmarkStore, PublicEntry};
use crate::types::{BookmarkName, BookmarkUpdateReason, BundleReplayData, ChangesetId};

verus! {

/// A staged, not-yet-committed pointer creation, scoped to one namespace.
#[derive(Debug)]
pub enum StagedCreate {
    Scratch { name: BookmarkName, target: ChangesetId },
    Public { name: BookmarkName, entry: PublicEntry },
}

/// A single-use transaction against the shared store: stage one creation,
/// then commit once (committing consumes the transaction).
#[derive(Debug)]
pub struct BookmarkTransaction {
    staged: Option<StagedCreate>,
}

impl BookmarkTransaction {
    /// What the transaction has staged.
    pub closed spec fn spec_staged(self) -> Option<StagedCreate> {
        self.staged
    }

    /// Begin a transaction with nothing staged.
    pub fn begin() -> (r: BookmarkTransaction)
        ensures
            r.spec_staged() is None,
    {
        BookmarkTransaction { staged: None }
    }

    /// Stage the creation of a scratch bookmark.  A create is not an
    /// upsert: staging fails, without mutating anything, if the name
    /// already exists in the scratch namespace.
    pub fn create_scratch(
        &mut self,
        store: &BookmarkStore,
        bookmark: &BookmarkName,
        target: ChangesetId,
    ) -> (r: Result<(), BookmarkMovementError>)
        requires
            old(self).spec_staged() is None,
        ensures
            store.scratch_map().dom().contains(bookmark@) ==> {
                &&& r matches Err(BookmarkMovementError::StorageError { cause })
                    && cause == StorageErrorCause::PointerAlreadyExists
                &&& final(self).spec_staged() is None
            },
            !store.scratch_map().dom().contains(bookmark@) ==> {
                &&& r == Ok::<(), BookmarkMovementError>(())
                &&& final(self).spec_staged() matches Some(StagedCreate::Scratch {
                    name,
                    target: t,
                }) && name@ == bookmark@ && t == target
            },
    {
        match store.get_scratch(bookmark) {
            Some(_) => Err(
                BookmarkMovementError::StorageError {
                    cause: StorageErrorCause::PointerAlreadyExists,
                },
            ),
            None => {
                self.staged = Some(StagedCreate::Scratch { name: bookmark.clone(), target });
                Ok(())
            },
        }
    }

    /// Stage the creation of a public bookmark, recording the audited
    /// reason and any side-band replay metadata unmodified.  Staging
    /// fails, without mutating anything, if the name already exists in
    /// the public namespace.
    pub fn create(
        &mut self,
        store: &BookmarkStore,
        bookmark: &BookmarkName,
        target: ChangesetId,
        reason: BookmarkUpdateReason,
        bundle_replay: Option<&BundleReplayData>,
    ) -> (r: Result<(), BookmarkMovementError>)
        requires
            old(self).spec_staged() is None,
        ensures
            store.public_map().dom().contains(bookmark@) ==> {
                &&& r matches Err(BookmarkMovementError::StorageError { cause })
                    && cause == StorageErrorCause::PointerAlreadyExists
                &&& final(self).spec_staged() is None
            },
            !store.public_map().dom().contains(bookmark@) ==> {
                &&& r == Ok::<(), BookmarkMovementError>(())
                &&& final(self).spec_staged() matches Some(StagedCreate::Public { name, entry })
                    && name@ == bookmark@ && entry.target == target && entry.reason == reason && (
                match bundle_replay {
                    Some(b) => entry.replay == Some(*b),
                    None => entry.replay is None,
                })
            },
    {
        match store.get_public(bookmark) {
            Some(_) => Err(
                BookmarkMovementError::StorageError {
                    cause: StorageErrorCause::PointerAlreadyExists,
                },
            ),
            None => {
                let replay = match bundle_replay {
                    Some(b) => Some(*b),
                    None => None,
                };
                let entry = PublicEntry { target, reason, replay };
                self.staged = Some(StagedCreate::Public { name: bookmark.clone(), entry });
                Ok(())
            },
        }
    }

    /// Commit the staged operation with optimistic concurrency: the store
    /// accepts it exactly when the staged name is still absent from its
    /// namespace.  `Ok(false)` is a lost race, not an error, and leaves no
    /// partial effect.
    pub fn commit(self, store: &mut BookmarkStore) -> (r: Result<bool, BookmarkMovementError>)
        ensures
            match self.spec_staged() {
                None => {
                    &&& r == Ok::<bool, BookmarkMovementError>(true)
                    &&& final(store).scratch_map() == old(store).scratch_map()
                    &&& final(store).public_map() == old(store).public_map()
                    &&& final(store).aux_map() == old(store).aux_map()
                },
                Some(StagedCreate::Scratch { name, target }) => {
                    &&& old(store).scratch_map().dom().contains(name@) ==> {
                        &&& r == Ok::<bool, BookmarkMovementError>(false)
                        &&& final(store).scratch_map() == old(store).scratch_map()
                        &&& final(store).public_map() == old(store).public_map()
                        &&& final(store).aux_map() == old(store).aux_map()
                    }
                    &&& !old(store).scratch_map().dom().contains(name@) ==> {
                        &&& r == Ok::<bool, BookmarkMovementError>(true)
                        &&& final(store).scratch_map() == old(store).scratch_map().insert(
                            name@,
                            target,
                        )
                        &&& final(store).public_map() == old(store).public_map()
                        &&& final(store).aux_map() == old(store).aux_map()
                    }
                },
                Some(StagedCreate::Public { name, entry }) => {
                    &&& old(store).public_map().dom().contains(name@) ==> {
                        &&& r == Ok::<bool, BookmarkMovementError>(false)
                        &&& final(store).scratch_map() == old(store).scratch_map()
                        &&& final(store).public_map() == old(store).public_map()
                        &&& final(store).aux_map() == old(store).aux_map()
                    }
                    &&& !old(store).public_map().dom().contains(name@) ==> {
                        &&& r == Ok::<bool, BookmarkMovementError>(true)
                        &&& final(store).public_map() == old(store).public_map().insert(
                            name@,
                            entry,
                        )
                        &&& final(store).scratch_map() == old(store).scratch_map()
                        &&& final(store).aux_map() == old(store).aux_map()
                    }
                },
            },
    {
        match self.staged {
            None => Ok(true),
            Some(StagedCreate::Scratch { name, target }) => {
                match store.get_scratch(&name) {
                    Some(_) => Ok(false),
                    None => {
                        store.insert_scratch(name, target);
                        Ok(true)
                    },
                }
            },
            Some(StagedCreate::Public { name, entry }) => {
                match store.get_public(&name) {
                    Some(_) => Ok(false),
                    None => {
                        store.insert_public(name, entry);
                        Ok(true)
                    },
                }
            },
        }
    }

    /// Commit the staged operation together with a deferred
    /// auxiliary-mapping write, as one logical unit: a hook conflict
    /// aborts the pointer write, a lost race on the pointer skips the hook
    /// write, and on acceptance both apply.  No state is ever left with
    /// one applied and not the other.
    pub fn commit_with_hook(self, hook: AuxMappingHook, store: &mut BookmarkStore) -> (r: Result<
        bool,
        BookmarkMovementError,
    >)
        requires
            hook.wf(),
        ensures
            aux_conflict(old(store).aux_map(), hook@) ==> {
                &&& r matches Err(BookmarkMovementError::StorageError { cause })
                    && cause == StorageErrorCause::AuxMappingConflict
                &&& final(store).scratch_map() == old(store).scratch_map()
                &&& final(store).public_map() == old(store).public_map()
                &&& final(store).aux_map() == old(store).aux_map()
            },
            !aux_conflict(old(store).aux_map(), hook@) ==> match self.spec_staged() {
                None => {
                    &&& r == Ok::<bool, BookmarkMovementError>(true)
                    &&& final(store).scratch_map() == old(store).scratch_map()
                    &&& final(store).public_map() == old(store).public_map()
                    &&& final(store).aux_map() == old(store).aux_map().union_prefer_right(hook@)
                },
                Some(StagedCreate::Scratch { name, target }) => {
                    &&& old(store).scratch_map().dom().contains(name@) ==> {
                        &&& r == Ok::<bool, BookmarkMovementError>(false)
                        &&& final(store).scratch_map() == old(store).scratch_map()
                        &&& final(store).public_map() == old(store).public_map()
                        &&& final(store).aux_map() == old(store).aux_map()
                    }
                    &&& !old(store).scratch_map().dom().contains(name@) ==> {
                        &&& r == Ok::<bool, BookmarkMovementError>(true)
                        &&& final(store).scratch_map() == old(store).scratch_map().insert(
                            name@,
                            target,
                        )
                        &&& final(store).public_map() == old(store).public_map()
                        &&& final(store).aux_map() == old(store).aux_map().union_prefer_right(
                            hook@,
                        )
                    }
                },
                Some(StagedCreate::Public { name, entry }) => {
                    &&& old(store).public_map().dom().contains(name@) ==> {
                        &&& r == Ok::<bool, BookmarkMovementError>(false)
                        &&& final(store).scratch_map() == old(store).scratch_map()
                        &&& final(store).public_map() == old(store).public_map()
                        &&& final(store).aux_map() == old(store).aux_map()
                    }
                    &&& !old(store).public_map().dom().contains(name@) ==> {
                        &&& r == Ok::<bool, BookmarkMovementError>(true)
                        &&& final(store).public_map() == old(store).public_map().insert(
                            name@,
                            entry,
                        )
                        &&& final(store).scratch_map() == old(store).scratch_map()
                        &&& final(store).aux_map() == old(store).aux_map().union_prefer_right(
                            hook@,
                        )
                    }
                },
            },
    {
        if hook.conflicts_with(store) {
            return Err(
                BookmarkMovementError::StorageError { cause: StorageErrorCause::AuxMappingConflict },
            );
        }
        match self.staged {
            None => {
                hook.apply(store);
                Ok(true)
            },
            Some(StagedCreate::Scratch { name, target }) => {
                match store.get_scratch(&name) {
                    Some(_) => Ok(false),
                    None => {
                        store.insert_scratch(name, target);
                        hook.apply(store);
                        Ok(true)
                    },
                }
            },
            Some(StagedCreate::Public { name, entry }) => {
                match store.get_public(&name) {
                    Some(_) => Ok(false),
                    None => {
                        store.insert_public(name, entry);
                        hook.apply(store);
                        Ok(true)
                    },
                }
            },
        }
    }
}

} // verus!
