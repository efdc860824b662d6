//! The create operation: a single-use builder that assembles
//! authorization, classification, hook preparation and transaction commit
//! into one operation.
//!
//! The steps run in strict order — authorization, kind resolution, the
//! global-numbering precondition and hook preparation for public
//! bookmarks, staging, commit — and every step fails fast.  No step
//! mutates the store except the commit itself, so nothing is partially
//! applied on failure.

use vstd::prelude::*;

use crate::auth::{AclEntry, BookmarkAttrs, BookmarkMoveAuthorization, CoreContext};
use crate::aux_mapping::{aux_conflict, prepare_aux_mapping_hook, require_global_numbering_disabled,
    spec_prepared_hook, AuxMappingHook, PushrebaseParams};
use crate::changeset_map::ChangesetMap;
use crate::errors::{BookmarkMovementError, StorageErrorCause};
use crate::kind::{classified_kind, BookmarkKind, BookmarkKindRestrictions, InfinitepushParams};
use crate::store::{store_unchanged, BookmarkStore, PublicEntry};
use crate::transaction::{BookmarkTransaction, StagedCreate};
use crate::types::{AuxId, BookmarkName, BookmarkUpdateReason, BundleReplayData, ChangesetId,
    ChangesetRecord};

verus! {

/// A single-use creation of a bookmark: configured through chained
/// setters, consumed by one execution.
pub struct CreateBookmarkOp<'op> {
    bookmark: &'op BookmarkName,
    target: ChangesetId,
    reason: BookmarkUpdateReason,
    auth: BookmarkMoveAuthorization,
    kind_restrictions: BookmarkKindRestrictions,
    new_changesets: ChangesetMap,
    bundle_replay: Option<&'op BundleReplayData>,
}

impl<'op> CreateBookmarkOp<'op> {
    /// The name the operation creates.
    pub closed spec fn spec_bookmark(self) -> Seq<char> {
        self.bookmark@
    }

    /// The target the pointer will reference.
    pub closed spec fn spec_target(self) -> ChangesetId {
        self.target
    }

    /// The audited reason.
    pub closed spec fn spec_reason(self) -> BookmarkUpdateReason {
        self.reason
    }

    /// The authorization mode in force.
    pub closed spec fn spec_auth(self) -> BookmarkMoveAuthorization {
        self.auth
    }

    /// The declared kind restriction.
    pub closed spec fn spec_restriction(self) -> BookmarkKindRestrictions {
        self.kind_restrictions
    }

    /// The changesets attached as newly introduced in this operation.
    pub closed spec fn spec_new_changesets(self) -> Map<ChangesetId, ChangesetRecord> {
        self.new_changesets@
    }

    /// The side-band replay metadata, if any.
    pub closed spec fn spec_replay(self) -> Option<BundleReplayData> {
        match self.bundle_replay {
            Some(b) => Some(*b),
            None => None,
        }
    }

    /// The operation's principal is approved for its bookmark.
    pub open spec fn spec_authorized(self, ctx: CoreContext, attrs: Seq<AclEntry>) -> bool {
        self.spec_auth().spec_authorized(ctx, attrs, self.spec_bookmark())
    }

    /// The kind the configuration resolves for the bookmark.
    pub open spec fn spec_kind(self, params: InfinitepushParams) -> BookmarkKind {
        classified_kind(params, self.spec_bookmark())
    }

    /// The resolved kind agrees with the declared restriction.
    pub open spec fn spec_kind_ok(self, params: InfinitepushParams) -> bool {
        self.spec_restriction().allows(self.spec_kind(params))
    }

    /// A new operation: ambient authorization, no kind restriction, no
    /// replay metadata, no new changesets.
    pub fn new(
        bookmark: &'op BookmarkName,
        target: ChangesetId,
        reason: BookmarkUpdateReason,
    ) -> (r: CreateBookmarkOp<'op>)
        ensures
            r.spec_bookmark() == bookmark@,
            r.spec_target() == target,
            r.spec_reason() == reason,
            r.spec_auth() == BookmarkMoveAuthorization::Context,
            r.spec_restriction() == BookmarkKindRestrictions::AnyKind,
            r.spec_new_changesets() == Map::<ChangesetId, ChangesetRecord>::empty(),
            r.spec_replay() is None,
    {
        CreateBookmarkOp {
            bookmark,
            target,
            reason,
            auth: BookmarkMoveAuthorization::Context,
            kind_restrictions: BookmarkKindRestrictions::AnyKind,
            new_changesets: ChangesetMap::new(),
            bundle_replay: None,
        }
    }

    /// Declare that the bookmark must resolve as scratch.
    pub fn only_if_scratch(self) -> (r: Self)
        ensures
            r.spec_restriction() == BookmarkKindRestrictions::OnlyScratch,
            r.spec_bookmark() == self.spec_bookmark(),
            r.spec_target() == self.spec_target(),
            r.spec_reason() == self.spec_reason(),
            r.spec_auth() == self.spec_auth(),
            r.spec_new_changesets() == self.spec_new_changesets(),
            r.spec_replay() == self.spec_replay(),
    {
        let mut this = self;
        this.kind_restrictions = BookmarkKindRestrictions::OnlyScratch;
        this
    }

    /// Declare that the bookmark must resolve as public.
    pub fn only_if_public(self) -> (r: Self)
        ensures
            r.spec_restriction() == BookmarkKindRestrictions::OnlyPublic,
            r.spec_bookmark() == self.spec_bookmark(),
            r.spec_target() == self.spec_target(),
            r.spec_reason() == self.spec_reason(),
            r.spec_auth() == self.spec_auth(),
            r.spec_new_changesets() == self.spec_new_changesets(),
            r.spec_replay() == self.spec_replay(),
    {
        let mut this = self;
        this.kind_restrictions = BookmarkKindRestrictions::OnlyPublic;
        this
    }

    /// Attach side-band replay metadata, passed through unmodified to the
    /// transaction.
    pub fn with_bundle_replay_data(self, bundle_replay: Option<&'op BundleReplayData>) -> (r: Self)
        ensures
            r.spec_replay() == (match bundle_replay {
                Some(b) => Some(*b),
                None => None::<BundleReplayData>,
            }),
            r.spec_bookmark() == self.spec_bookmark(),
            r.spec_target() == self.spec_target(),
            r.spec_reason() == self.spec_reason(),
            r.spec_auth() == self.spec_auth(),
            r.spec_restriction() == self.spec_restriction(),
            r.spec_new_changesets() == self.spec_new_changesets(),
    {
        let mut this = self;
        this.bundle_replay = bundle_replay;
        this
    }

    /// Attach changeset records for changesets that have just been added
    /// to the repository.  Attaching merges: a key supplied twice keeps
    /// the latest record, and merging never fails.
    pub fn with_new_changesets(self, changesets: ChangesetMap) -> (r: Self)
        ensures
            r.spec_new_changesets() == self.spec_new_changesets().union_prefer_right(changesets@),
            r.spec_bookmark() == self.spec_bookmark(),
            r.spec_target() == self.spec_target(),
            r.spec_reason() == self.spec_reason(),
            r.spec_auth() == self.spec_auth(),
            r.spec_restriction() == self.spec_restriction(),
            r.spec_replay() == self.spec_replay(),
    {
        let mut this = self;
        if this.new_changesets.is_empty() {
            proof {
                assert(this.new_changesets@.union_prefer_right(changesets@) =~= changesets@);
            }
            this.new_changesets = changesets;
        } else {
            this.new_changesets.merge(changesets);
        }
        this
    }

    /// Run every check in order — authorization, kind resolution, the
    /// global-numbering precondition and hook preparation for public
    /// bookmarks — and stage the creation, without mutating the store.
    pub fn prepare(
        self,
        ctx: &CoreContext,
        store: &BookmarkStore,
        infinitepush_params: &InfinitepushParams,
        pushrebase_params: &PushrebaseParams,
        bookmark_attrs: &BookmarkAttrs,
    ) -> (r: Result<PreparedCreate, BookmarkMovementError>)
        ensures
            !self.spec_authorized(*ctx, bookmark_attrs@) ==> (r matches Err(
                BookmarkMovementError::PermissionDenied { bookmark: b },
            ) && b@ == self.spec_bookmark()),
            self.spec_authorized(*ctx, bookmark_attrs@) && !self.spec_kind_ok(*infinitepush_params)
                ==> (r matches Err(BookmarkMovementError::KindMismatch { expected, actual })
                && expected == self.spec_restriction().demanded_kind() && actual == self.spec_kind(
                *infinitepush_params,
            )),
            self.spec_authorized(*ctx, bookmark_attrs@) && self.spec_kind_ok(*infinitepush_params)
                && self.spec_kind(*infinitepush_params) == BookmarkKind::Scratch ==> {
                &&& store.scratch_map().dom().contains(self.spec_bookmark()) ==> (r matches Err(
                    BookmarkMovementError::StorageError { cause },
                ) && cause == StorageErrorCause::PointerAlreadyExists)
                &&& !store.scratch_map().dom().contains(self.spec_bookmark()) ==> (r matches Ok(p)
                    && {
                    &&& p.wf()
                    &&& p.spec_staged() matches Some(StagedCreate::Scratch { name, target })
                        && name@ == self.spec_bookmark() && target == self.spec_target()
                    &&& p.spec_hook() is None
                })
            },
            self.spec_authorized(*ctx, bookmark_attrs@) && self.spec_kind_ok(*infinitepush_params)
                && self.spec_kind(*infinitepush_params) == BookmarkKind::Public ==> {
                &&& pushrebase_params.assign_global_numbers ==> r == Err::<
                    PreparedCreate,
                    BookmarkMovementError,
                >(BookmarkMovementError::ConfigurationConflict)
                &&& !pushrebase_params.assign_global_numbers ==> {
                    &&& store.public_map().dom().contains(self.spec_bookmark()) ==> (r matches Err(
                        BookmarkMovementError::StorageError { cause },
                    ) && cause == StorageErrorCause::PointerAlreadyExists)
                    &&& !store.public_map().dom().contains(self.spec_bookmark()) ==> (r matches Ok(
                        p,
                    ) && {
                        &&& p.wf()
                        &&& p.spec_staged() matches Some(StagedCreate::Public { name, entry })
                            && name@ == self.spec_bookmark() && entry == (PublicEntry {
                            target: self.spec_target(),
                            reason: self.spec_reason(),
                            replay: self.spec_replay(),
                        })
                        &&& p.spec_hook() == spec_prepared_hook(
                            *store,
                            *pushrebase_params,
                            self.spec_target(),
                            self.spec_new_changesets(),
                        )
                    })
                }
            },
    {
        match self.auth.check_authorized(ctx, bookmark_attrs, self.bookmark) {
            Ok(()) => {},
            Err(e) => {
                return Err(e);
            },
        }
        let kind = match self.kind_restrictions.check_kind(infinitepush_params, self.bookmark) {
            Ok(k) => k,
            Err(e) => {
                return Err(e);
            },
        };
        let mut txn = BookmarkTransaction::begin();
        match kind {
            BookmarkKind::Scratch => {
                match txn.create_scratch(store, self.bookmark, self.target) {
                    Ok(()) => {},
                    Err(e) => {
                        return Err(e);
                    },
                }
                Ok(PreparedCreate { txn, hook: None })
            },
            BookmarkKind::Public => {
                match require_global_numbering_disabled(pushrebase_params) {
                    Ok(()) => {},
                    Err(e) => {
                        return Err(e);
                    },
                }
                let hook = prepare_aux_mapping_hook(
                    store,
                    pushrebase_params,
                    self.target,
                    &self.new_changesets,
                );
                match txn.create(store, self.bookmark, self.target, self.reason, self.bundle_replay)
                    {
                    Ok(()) => {},
                    Err(e) => {
                        return Err(e);
                    },
                }
                Ok(PreparedCreate { txn, hook })
            },
        }
    }

    /// Execute the whole operation against the store: prepare, then
    /// commit.  Exactly one terminal outcome; no partial external effect
    /// is observable on failure.  While this call holds the store,
    /// nothing can change it between staging and commit; concurrent
    /// operations interleave by driving [`CreateBookmarkOp::prepare`] and
    /// [`PreparedCreate::commit`] separately, and only then can the
    /// commit lose a race.
    pub fn run(
        self,
        ctx: &CoreContext,
        store: &mut BookmarkStore,
        infinitepush_params: &InfinitepushParams,
        pushrebase_params: &PushrebaseParams,
        bookmark_attrs: &BookmarkAttrs,
    ) -> (r: Result<(), BookmarkMovementError>)
        ensures
            !self.spec_authorized(*ctx, bookmark_attrs@) ==> (r matches Err(
                BookmarkMovementError::PermissionDenied { bookmark: b },
            ) && b@ == self.spec_bookmark()) && store_unchanged(*old(store), *final(store)),
            self.spec_authorized(*ctx, bookmark_attrs@) && !self.spec_kind_ok(*infinitepush_params)
                ==> (r matches Err(BookmarkMovementError::KindMismatch { expected, actual })
                && expected == self.spec_restriction().demanded_kind() && actual == self.spec_kind(
                *infinitepush_params,
            )) && store_unchanged(*old(store), *final(store)),
            self.spec_authorized(*ctx, bookmark_attrs@) && self.spec_kind_ok(*infinitepush_params)
                && self.spec_kind(*infinitepush_params) == BookmarkKind::Scratch ==> {
                &&& old(store).scratch_map().dom().contains(self.spec_bookmark()) ==> (r matches
                Err(BookmarkMovementError::StorageError { cause }) && cause
                    == StorageErrorCause::PointerAlreadyExists) && store_unchanged(
                    *old(store),
                    *final(store),
                )
                &&& !old(store).scratch_map().dom().contains(self.spec_bookmark()) ==> {
                    &&& r == Ok::<(), BookmarkMovementError>(())
                    &&& final(store).scratch_map() == old(store).scratch_map().insert(
                        self.spec_bookmark(),
                        self.spec_target(),
                    )
                    &&& final(store).public_map() == old(store).public_map()
                    &&& final(store).aux_map() == old(store).aux_map()
                }
            },
            self.spec_authorized(*ctx, bookmark_attrs@) && self.spec_kind_ok(*infinitepush_params)
                && self.spec_kind(*infinitepush_params) == BookmarkKind::Public ==> {
                &&& pushrebase_params.assign_global_numbers ==> r == Err::<
                    (),
                    BookmarkMovementError,
                >(BookmarkMovementError::ConfigurationConflict) && store_unchanged(
                    *old(store),
                    *final(store),
                )
                &&& !pushrebase_params.assign_global_numbers ==> {
                    &&& old(store).public_map().dom().contains(self.spec_bookmark()) ==> (r matches
                    Err(BookmarkMovementError::StorageError { cause }) && cause
                        == StorageErrorCause::PointerAlreadyExists) && store_unchanged(
                        *old(store),
                        *final(store),
                    )
                    &&& !old(store).public_map().dom().contains(self.spec_bookmark())
                        ==> match spec_prepared_hook(
                        *old(store),
                        *pushrebase_params,
                        self.spec_target(),
                        self.spec_new_changesets(),
                    ) {
                        None => {
                            &&& r == Ok::<(), BookmarkMovementError>(())
                            &&& final(store).public_map() == old(store).public_map().insert(
                                self.spec_bookmark(),
                                (PublicEntry {
                                    target: self.spec_target(),
                                    reason: self.spec_reason(),
                                    replay: self.spec_replay(),
                                }),
                            )
                            &&& final(store).scratch_map() == old(store).scratch_map()
                            &&& final(store).aux_map() == old(store).aux_map()
                        },
                        Some(h) => {
                            &&& aux_conflict(old(store).aux_map(), h) ==> (r matches Err(
                                BookmarkMovementError::StorageError { cause },
                            ) && cause == StorageErrorCause::AuxMappingConflict)
                                && store_unchanged(*old(store), *final(store))
                            &&& !aux_conflict(old(store).aux_map(), h) ==> {
                                &&& r == Ok::<(), BookmarkMovementError>(())
                                &&& final(store).public_map() == old(store).public_map().insert(
                                    self.spec_bookmark(),
                                    (PublicEntry {
                                        target: self.spec_target(),
                                        reason: self.spec_reason(),
                                        replay: self.spec_replay(),
                                    }),
                                )
                                &&& final(store).scratch_map() == old(store).scratch_map()
                                &&& final(store).aux_map() == old(store).aux_map(
                                ).union_prefer_right(h)
                            }
                        },
                    }
                }
            },
    {
        let prepared = match self.prepare(
            ctx,
            store,
            infinitepush_params,
            pushrebase_params,
            bookmark_attrs,
        ) {
            Ok(p) => p,
            Err(e) => {
                return Err(e);
            },
        };
        prepared.commit(store)
    }
}

/// A create that has passed every check and staged its transaction: all
/// that is left is the single commit round trip.
pub struct PreparedCreate {
    txn: BookmarkTransaction,
    hook: Option<AuxMappingHook>,
}

impl PreparedCreate {
    /// What the underlying transaction has staged.
    pub closed spec fn spec_staged(self) -> Option<StagedCreate> {
        self.txn.spec_staged()
    }

    /// The deferred auxiliary entries, if a hook was prepared.
    pub closed spec fn spec_hook(self) -> Option<Map<ChangesetId, AuxId>> {
        match self.hook {
            Some(h) => Some(h@),
            None => None,
        }
    }

    /// The prepared hook, if any, is well formed.
    pub closed spec fn wf(self) -> bool {
        match self.hook {
            Some(h) => h.wf(),
            None => true,
        }
    }

    /// Commit the staged creation, attaching the prepared hook if there
    /// is one.  A commit the store reports as not applied is a lost race:
    /// it is surfaced as `TransactionFailed`, distinct from a storage
    /// error, and leaves the store untouched.
    pub fn commit(self, store: &mut BookmarkStore) -> (r: Result<(), BookmarkMovementError>)
        requires
            self.wf(),
        ensures
            match self.spec_hook() {
                None => match self.spec_staged() {
                    None => r == Ok::<(), BookmarkMovementError>(()) && store_unchanged(
                        *old(store),
                        *final(store),
                    ),
                    Some(StagedCreate::Scratch { name, target }) => {
                        &&& old(store).scratch_map().dom().contains(name@) ==> r == Err::<
                            (),
                            BookmarkMovementError,
                        >(BookmarkMovementError::TransactionFailed) && store_unchanged(
                            *old(store),
                            *final(store),
                        )
                        &&& !old(store).scratch_map().dom().contains(name@) ==> {
                            &&& r == Ok::<(), BookmarkMovementError>(())
                            &&& final(store).scratch_map() == old(store).scratch_map().insert(
                                name@,
                                target,
                            )
                            &&& final(store).public_map() == old(store).public_map()
                            &&& final(store).aux_map() == old(store).aux_map()
                        }
                    },
                    Some(StagedCreate::Public { name, entry }) => {
                        &&& old(store).public_map().dom().contains(name@) ==> r == Err::<
                            (),
                            BookmarkMovementError,
                        >(BookmarkMovementError::TransactionFailed) && store_unchanged(
                            *old(store),
                            *final(store),
                        )
                        &&& !old(store).public_map().dom().contains(name@) ==> {
                            &&& r == Ok::<(), BookmarkMovementError>(())
                            &&& final(store).public_map() == old(store).public_map().insert(
                                name@,
                                entry,
                            )
                            &&& final(store).scratch_map() == old(store).scratch_map()
                            &&& final(store).aux_map() == old(store).aux_map()
                        }
                    },
                },
                Some(h) => {
                    &&& aux_conflict(old(store).aux_map(), h) ==> (r matches Err(
                        BookmarkMovementError::StorageError { cause },
                    ) && cause == StorageErrorCause::AuxMappingConflict) && store_unchanged(
                        *old(store),
                        *final(store),
                    )
                    &&& !aux_conflict(old(store).aux_map(), h) ==> match self.spec_staged() {
                        None => {
                            &&& r == Ok::<(), BookmarkMovementError>(())
                            &&& final(store).aux_map() == old(store).aux_map().union_prefer_right(
                                h,
                            )
                            &&& final(store).scratch_map() == old(store).scratch_map()
                            &&& final(store).public_map() == old(store).public_map()
                        },
                        Some(StagedCreate::Scratch { name, target }) => {
                            &&& old(store).scratch_map().dom().contains(name@) ==> r == Err::<
                                (),
                                BookmarkMovementError,
                            >(BookmarkMovementError::TransactionFailed) && store_unchanged(
                                *old(store),
                                *final(store),
                            )
                            &&& !old(store).scratch_map().dom().contains(name@) ==> {
                                &&& r == Ok::<(), BookmarkMovementError>(())
                                &&& final(store).scratch_map() == old(store).scratch_map().insert(
                                    name@,
                                    target,
                                )
                                &&& final(store).public_map() == old(store).public_map()
                                &&& final(store).aux_map() == old(
                                    store,
                                ).aux_map().union_prefer_right(h)
                            }
                        },
                        Some(StagedCreate::Public { name, entry }) => {
                            &&& old(store).public_map().dom().contains(name@) ==> r == Err::<
                                (),
                                BookmarkMovementError,
                            >(BookmarkMovementError::TransactionFailed) && store_unchanged(
                                *old(store),
                                *final(store),
                            )
                            &&& !old(store).public_map().dom().contains(name@) ==> {
                                &&& r == Ok::<(), BookmarkMovementError>(())
                                &&& final(store).public_map() == old(store).public_map().insert(
                                    name@,
                                    entry,
                                )
                                &&& final(store).scratch_map() == old(store).scratch_map()
                                &&& final(store).aux_map() == old(
                                    store,
                                ).aux_map().union_prefer_right(h)
                            }
                        },
                    }
                },
            },
    {
        let applied = match self.hook {
            Some(hook) => {
                match self.txn.commit_with_hook(hook, store) {
                    Ok(b) => b,
                    Err(e) => {
                        return Err(e);
                    },
                }
            },
            None => {
                match self.txn.commit(store) {
                    Ok(b) => b,
                    Err(e) => {
                        return Err(e);
                    },
                }
            },
        };
        if !applied {
            return Err(BookmarkMovementError::TransactionFailed);
        }
        Ok(())
    }
}

} // verus!
