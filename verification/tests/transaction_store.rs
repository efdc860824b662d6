//! Tests at the transaction and store level: staging, commit races, and
//! the new-changesets mapping.

use bookmarks_movement::auth::{
    AclEntry, BookmarkAttrs, BookmarkMoveAuthorization, CoreContext,
};
use bookmarks_movement::changeset_map::ChangesetMap;
use bookmarks_movement::errors::{BookmarkMovementError, StorageErrorCause};
use bookmarks_movement::kind::{BookmarkKind, BookmarkKindRestrictions, InfinitepushParams};
use bookmarks_movement::store::BookmarkStore;
use bookmarks_movement::transaction::BookmarkTransaction;
use bookmarks_movement::types::{
    AuxId, BookmarkName, BookmarkUpdateReason, ChangesetId, ChangesetRecord,
};

#[test]
fn staging_against_existing_scratch_name_fails() {
    let mut store = BookmarkStore::new();
    let name = BookmarkName::new("scratch/dup".to_string());

    let mut txn = BookmarkTransaction::begin();
    assert!(txn
        .create_scratch(&store, &name, ChangesetId::new(1))
        .is_ok());
    assert!(txn.commit(&mut store).unwrap());

    let mut txn2 = BookmarkTransaction::begin();
    let r = txn2.create_scratch(&store, &name, ChangesetId::new(2));
    match r {
        Err(BookmarkMovementError::StorageError { cause }) => {
            assert_eq!(cause, StorageErrorCause::PointerAlreadyExists);
        }
        other => panic!("expected an already-exists failure, got {:?}", other),
    }
    assert_eq!(store.get_scratch(&name), Some(ChangesetId::new(1)));
}

#[test]
fn staging_against_existing_public_name_fails() {
    let mut store = BookmarkStore::new();
    let name = BookmarkName::new("main".to_string());

    let mut txn = BookmarkTransaction::begin();
    assert!(txn
        .create(
            &store,
            &name,
            ChangesetId::new(1),
            BookmarkUpdateReason::Push,
            None,
        )
        .is_ok());
    assert!(txn.commit(&mut store).unwrap());

    let mut txn2 = BookmarkTransaction::begin();
    let r = txn2.create(
        &store,
        &name,
        ChangesetId::new(2),
        BookmarkUpdateReason::Push,
        None,
    );
    assert!(matches!(
        r,
        Err(BookmarkMovementError::StorageError { .. })
    ));
    assert_eq!(store.get_public(&name).unwrap().target, ChangesetId::new(1));
}

#[test]
fn commit_race_returns_not_applied_not_an_error() {
    let mut store = BookmarkStore::new();
    let name = BookmarkName::new("release".to_string());

    let mut txn1 = BookmarkTransaction::begin();
    let mut txn2 = BookmarkTransaction::begin();
    assert!(txn1
        .create(
            &store,
            &name,
            ChangesetId::new(4),
            BookmarkUpdateReason::Push,
            None,
        )
        .is_ok());
    assert!(txn2
        .create(
            &store,
            &name,
            ChangesetId::new(5),
            BookmarkUpdateReason::Push,
            None,
        )
        .is_ok());

    let first = txn1.commit(&mut store);
    let second = txn2.commit(&mut store);
    assert_eq!(first.unwrap(), true);
    // The loser is told "not applied" through the ordinary result
    // channel, not through the failure channel.
    assert_eq!(second.unwrap(), false);
    assert_eq!(store.get_public(&name).unwrap().target, ChangesetId::new(4));
}

#[test]
fn empty_transaction_commits_trivially() {
    let mut store = BookmarkStore::new();
    let txn = BookmarkTransaction::begin();
    assert_eq!(txn.commit(&mut store).unwrap(), true);
}

#[test]
fn scratch_and_public_namespaces_are_distinct() {
    let mut store = BookmarkStore::new();
    let name = BookmarkName::new("shared-name".to_string());

    let mut txn = BookmarkTransaction::begin();
    assert!(txn
        .create_scratch(&store, &name, ChangesetId::new(1))
        .is_ok());
    assert!(txn.commit(&mut store).unwrap());

    // The same name can still be created in the public namespace.
    let mut txn2 = BookmarkTransaction::begin();
    assert!(txn2
        .create(
            &store,
            &name,
            ChangesetId::new(2),
            BookmarkUpdateReason::Push,
            None,
        )
        .is_ok());
    assert!(txn2.commit(&mut store).unwrap());

    assert_eq!(store.get_scratch(&name), Some(ChangesetId::new(1)));
    assert_eq!(store.get_public(&name).unwrap().target, ChangesetId::new(2));
}

#[test]
fn changeset_map_insert_replaces() {
    let mut map = ChangesetMap::new();
    let c = ChangesetId::new(1);
    assert!(map.is_empty());
    assert!(!map.contains(c));

    map.insert(c, ChangesetRecord::new(vec![], Some(AuxId::new(10))));
    map.insert(
        c,
        ChangesetRecord::new(vec![ChangesetId::new(2)], Some(AuxId::new(11))),
    );

    assert!(!map.is_empty());
    assert!(map.contains(c));
    let record = map.get(c).unwrap();
    assert_eq!(record.aux_id, Some(AuxId::new(11)));
    assert_eq!(record.parents, vec![ChangesetId::new(2)]);
}

#[test]
fn changeset_map_merge_prefers_the_right() {
    let mut left = ChangesetMap::new();
    left.insert(
        ChangesetId::new(1),
        ChangesetRecord::new(vec![], Some(AuxId::new(10))),
    );
    left.insert(ChangesetId::new(2), ChangesetRecord::new(vec![], None));

    let mut right = ChangesetMap::new();
    right.insert(
        ChangesetId::new(2),
        ChangesetRecord::new(vec![], Some(AuxId::new(20))),
    );
    right.insert(
        ChangesetId::new(3),
        ChangesetRecord::new(vec![], Some(AuxId::new(30))),
    );

    left.merge(right);
    assert_eq!(left.get(ChangesetId::new(1)).unwrap().aux_id, Some(AuxId::new(10)));
    assert_eq!(left.get(ChangesetId::new(2)).unwrap().aux_id, Some(AuxId::new(20)));
    assert_eq!(left.get(ChangesetId::new(3)).unwrap().aux_id, Some(AuxId::new(30)));
    assert!(!left.contains(ChangesetId::new(4)));
}

#[test]
fn policy_table_constrains_only_covering_prefixes() {
    let attrs = BookmarkAttrs::new(vec![
        AclEntry::new("release/".to_string(), vec![1, 2]),
        AclEntry::new("release/hotfix".to_string(), vec![2]),
    ]);

    // Covered by the first entry only.
    assert!(attrs.is_allowed(1, &BookmarkName::new("release/next".to_string())));
    // Covered by both entries: every covering entry must list the
    // principal.
    assert!(!attrs.is_allowed(1, &BookmarkName::new("release/hotfix-1".to_string())));
    assert!(attrs.is_allowed(2, &BookmarkName::new("release/hotfix-1".to_string())));
    // Covered by no entry: unrestricted.
    assert!(attrs.is_allowed(99, &BookmarkName::new("main".to_string())));
}

#[test]
fn already_authorized_mode_skips_the_table() {
    let ctx = CoreContext::new(7);
    let attrs = BookmarkAttrs::new(vec![AclEntry::new("".to_string(), vec![42])]);
    let name = BookmarkName::new("main".to_string());

    let denied = BookmarkMoveAuthorization::Context.check_authorized(&ctx, &attrs, &name);
    assert!(matches!(
        denied,
        Err(BookmarkMovementError::PermissionDenied { .. })
    ));

    let granted =
        BookmarkMoveAuthorization::AlreadyAuthorized.check_authorized(&ctx, &attrs, &name);
    assert!(granted.is_ok());
}

#[test]
fn classification_follows_the_namespace_prefix() {
    let params = InfinitepushParams::new(Some("scratch/".to_string()));
    assert_eq!(
        params.classify(&BookmarkName::new("scratch/alice".to_string())),
        BookmarkKind::Scratch
    );
    assert_eq!(
        params.classify(&BookmarkName::new("main".to_string())),
        BookmarkKind::Public
    );
    // The prefix must match from the start.
    assert_eq!(
        params.classify(&BookmarkName::new("my/scratch/alice".to_string())),
        BookmarkKind::Public
    );

    let restriction = BookmarkKindRestrictions::OnlyPublic;
    let r = restriction.check_kind(&params, &BookmarkName::new("scratch/alice".to_string()));
    match r {
        Err(BookmarkMovementError::KindMismatch { expected, actual }) => {
            assert_eq!(expected, BookmarkKind::Public);
            assert_eq!(actual, BookmarkKind::Scratch);
        }
        other => panic!("expected a kind mismatch, got {:?}", other),
    }
    let ok = BookmarkKindRestrictions::AnyKind
        .check_kind(&params, &BookmarkName::new("scratch/alice".to_string()));
    assert_eq!(ok.unwrap(), BookmarkKind::Scratch);
}
