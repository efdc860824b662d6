//! End-to-end scenarios for the create operation.

use bookmarks_movement::auth::{AclEntry, BookmarkAttrs, CoreContext};
use bookmarks_movement::aux_mapping::PushrebaseParams;
use bookmarks_movement::changeset_map::ChangesetMap;
use bookmarks_movement::create::CreateBookmarkOp;
use bookmarks_movement::errors::{BookmarkMovementError, StorageErrorCause};
use bookmarks_movement::kind::{BookmarkKind, InfinitepushParams};
use bookmarks_movement::store::BookmarkStore;
use bookmarks_movement::types::{
    AuxId, BookmarkName, BookmarkUpdateReason, BundleReplayData, ChangesetId, ChangesetRecord,
};

fn open_attrs() -> BookmarkAttrs {
    BookmarkAttrs::new(Vec::new())
}

fn scratch_config() -> InfinitepushParams {
    InfinitepushParams::new(Some("scratch/".to_string()))
}

fn plain_params() -> PushrebaseParams {
    PushrebaseParams::new(false, true)
}

#[test]
fn create_public_bookmark_succeeds() {
    let mut store = BookmarkStore::new();
    let ctx = CoreContext::new(1);
    let name = BookmarkName::new("main".to_string());
    let t1 = ChangesetId::new(1);

    let op = CreateBookmarkOp::new(&name, t1, BookmarkUpdateReason::Push);
    let r = op.run(&ctx, &mut store, &scratch_config(), &plain_params(), &open_attrs());
    assert!(r.is_ok());

    let entry = store.get_public(&name).expect("main should exist");
    assert_eq!(entry.target, t1);
    assert_eq!(entry.reason, BookmarkUpdateReason::Push);
    assert!(entry.replay.is_none());
    assert!(store.get_scratch(&name).is_none());
}

#[test]
fn create_scratch_bookmark_succeeds_without_hook() {
    let mut store = BookmarkStore::new();
    let ctx = CoreContext::new(1);
    let name = BookmarkName::new("scratch/alice/feature".to_string());
    let t2 = ChangesetId::new(2);

    // Even with changesets attached, the scratch path must not derive any
    // auxiliary entries.
    let mut changesets = ChangesetMap::new();
    changesets.insert(t2, ChangesetRecord::new(vec![], Some(AuxId::new(92))));

    let op = CreateBookmarkOp::new(&name, t2, BookmarkUpdateReason::Push)
        .only_if_scratch()
        .with_new_changesets(changesets);
    let r = op.run(&ctx, &mut store, &scratch_config(), &plain_params(), &open_attrs());
    assert!(r.is_ok());

    assert_eq!(store.get_scratch(&name), Some(t2));
    assert!(store.get_public(&name).is_none());
    assert!(store.get_aux(t2).is_none());
}

#[test]
fn kind_mismatch_leaves_store_unmodified() {
    let mut store = BookmarkStore::new();
    let ctx = CoreContext::new(1);
    let name = BookmarkName::new("main".to_string());
    let t = ChangesetId::new(3);

    let op = CreateBookmarkOp::new(&name, t, BookmarkUpdateReason::Push).only_if_scratch();
    let r = op.run(&ctx, &mut store, &scratch_config(), &plain_params(), &open_attrs());
    match r {
        Err(BookmarkMovementError::KindMismatch { expected, actual }) => {
            assert_eq!(expected, BookmarkKind::Scratch);
            assert_eq!(actual, BookmarkKind::Public);
        }
        other => panic!("expected a kind mismatch, got {:?}", other),
    }
    assert!(store.get_public(&name).is_none());
    assert!(store.get_scratch(&name).is_none());
}

#[test]
fn permission_denied_before_anything_else() {
    let mut store = BookmarkStore::new();
    let ctx = CoreContext::new(7);
    let attrs = BookmarkAttrs::new(vec![AclEntry::new("".to_string(), vec![42])]);
    let name = BookmarkName::new("main".to_string());
    let t3 = ChangesetId::new(3);

    // A kind mismatch is also present; authorization must win.
    let op = CreateBookmarkOp::new(&name, t3, BookmarkUpdateReason::Push).only_if_scratch();
    let r = op.run(&ctx, &mut store, &scratch_config(), &plain_params(), &attrs);
    match r {
        Err(BookmarkMovementError::PermissionDenied { bookmark }) => {
            assert_eq!(bookmark.as_str(), "main");
        }
        other => panic!("expected permission denied, got {:?}", other),
    }
    assert!(store.get_public(&name).is_none());
    assert!(store.get_scratch(&name).is_none());
}

#[test]
fn allowed_principal_passes_the_table() {
    let mut store = BookmarkStore::new();
    let ctx = CoreContext::new(42);
    let attrs = BookmarkAttrs::new(vec![
        AclEntry::new("release".to_string(), vec![42]),
        AclEntry::new("rel".to_string(), vec![42, 7]),
    ]);
    let name = BookmarkName::new("release".to_string());
    let op = CreateBookmarkOp::new(&name, ChangesetId::new(9), BookmarkUpdateReason::ApiRequest);
    let r = op.run(&ctx, &mut store, &scratch_config(), &plain_params(), &attrs);
    assert!(r.is_ok());
}

#[test]
fn concurrent_creates_race_exactly_one_wins() {
    let mut store = BookmarkStore::new();
    let ctx = CoreContext::new(1);
    let name = BookmarkName::new("release".to_string());
    let t4 = ChangesetId::new(4);
    let t5 = ChangesetId::new(5);

    let op1 = CreateBookmarkOp::new(&name, t4, BookmarkUpdateReason::Push);
    let op2 = CreateBookmarkOp::new(&name, t5, BookmarkUpdateReason::Push);

    // Both operations pass their checks and stage against the same store
    // state; the commits then race.
    let p1 = op1
        .prepare(&ctx, &store, &scratch_config(), &plain_params(), &open_attrs())
        .expect("first prepare should pass");
    let p2 = op2
        .prepare(&ctx, &store, &scratch_config(), &plain_params(), &open_attrs())
        .expect("second prepare should pass");

    assert!(p1.commit(&mut store).is_ok());
    let lost = p2.commit(&mut store);
    assert!(matches!(lost, Err(BookmarkMovementError::TransactionFailed)));
    assert!(!matches!(
        lost,
        Err(BookmarkMovementError::StorageError { .. })
    ));

    let entry = store.get_public(&name).expect("release should exist");
    assert_eq!(entry.target, t4);
}

#[test]
fn global_numbering_conflict_fails_before_staging() {
    let mut store = BookmarkStore::new();
    let ctx = CoreContext::new(1);
    let name = BookmarkName::new("main".to_string());
    let target = ChangesetId::new(6);

    let mut changesets = ChangesetMap::new();
    changesets.insert(target, ChangesetRecord::new(vec![], Some(AuxId::new(60))));

    let numbering_on = PushrebaseParams::new(true, true);
    let op = CreateBookmarkOp::new(&name, target, BookmarkUpdateReason::Push)
        .with_new_changesets(changesets);
    let r = op.run(&ctx, &mut store, &scratch_config(), &numbering_on, &open_attrs());
    assert!(matches!(
        r,
        Err(BookmarkMovementError::ConfigurationConflict)
    ));
    assert!(store.get_public(&name).is_none());
    assert!(store.get_aux(target).is_none());
}

#[test]
fn hook_writes_every_derived_mapping_on_success() {
    let mut store = BookmarkStore::new();
    let ctx = CoreContext::new(1);
    let name = BookmarkName::new("main".to_string());

    // target -> parent (both new, both carrying auxiliary ids); a second
    // parent outside the mapping; one more new changeset not reachable
    // from the target.
    let target = ChangesetId::new(10);
    let parent = ChangesetId::new(11);
    let outside = ChangesetId::new(12);
    let unreachable_cs = ChangesetId::new(13);
    let mut changesets = ChangesetMap::new();
    changesets.insert(
        target,
        ChangesetRecord::new(vec![parent, outside], Some(AuxId::new(110))),
    );
    changesets.insert(parent, ChangesetRecord::new(vec![], Some(AuxId::new(111))));
    changesets.insert(
        unreachable_cs,
        ChangesetRecord::new(vec![], Some(AuxId::new(113))),
    );

    let op = CreateBookmarkOp::new(&name, target, BookmarkUpdateReason::Push)
        .with_new_changesets(changesets);
    let r = op.run(&ctx, &mut store, &scratch_config(), &plain_params(), &open_attrs());
    assert!(r.is_ok());

    assert_eq!(store.get_aux(target), Some(AuxId::new(110)));
    assert_eq!(store.get_aux(parent), Some(AuxId::new(111)));
    assert_eq!(store.get_aux(outside), None);
    assert_eq!(store.get_aux(unreachable_cs), None);
}

#[test]
fn lost_race_applies_no_auxiliary_mapping() {
    let mut store = BookmarkStore::new();
    let ctx = CoreContext::new(1);
    let name = BookmarkName::new("main".to_string());
    let t_first = ChangesetId::new(20);
    let t_second = ChangesetId::new(21);

    let mut changesets = ChangesetMap::new();
    changesets.insert(t_second, ChangesetRecord::new(vec![], Some(AuxId::new(210))));

    let winner = CreateBookmarkOp::new(&name, t_first, BookmarkUpdateReason::Push);
    let loser = CreateBookmarkOp::new(&name, t_second, BookmarkUpdateReason::Push)
        .with_new_changesets(changesets);

    let p_winner = winner
        .prepare(&ctx, &store, &scratch_config(), &plain_params(), &open_attrs())
        .expect("winner prepare");
    let p_loser = loser
        .prepare(&ctx, &store, &scratch_config(), &plain_params(), &open_attrs())
        .expect("loser prepare");

    assert!(p_winner.commit(&mut store).is_ok());
    assert!(matches!(
        p_loser.commit(&mut store),
        Err(BookmarkMovementError::TransactionFailed)
    ));

    // The loser's hook must not have applied.
    assert_eq!(store.get_aux(t_second), None);
    assert_eq!(store.get_public(&name).unwrap().target, t_first);
}

#[test]
fn conflicting_auxiliary_binding_aborts_the_pointer_write() {
    let mut store = BookmarkStore::new();
    let ctx = CoreContext::new(1);

    // First create binds shared -> 500.
    let shared = ChangesetId::new(50);
    let first_name = BookmarkName::new("one".to_string());
    let mut first_changesets = ChangesetMap::new();
    first_changesets.insert(shared, ChangesetRecord::new(vec![], Some(AuxId::new(500))));
    let first = CreateBookmarkOp::new(&first_name, shared, BookmarkUpdateReason::Push)
        .with_new_changesets(first_changesets);
    assert!(first
        .run(&ctx, &mut store, &scratch_config(), &plain_params(), &open_attrs())
        .is_ok());
    assert_eq!(store.get_aux(shared), Some(AuxId::new(500)));

    // A second create derives shared -> 999: the hook cannot apply, and
    // the pointer write must not apply either.
    let second_name = BookmarkName::new("two".to_string());
    let second_target = ChangesetId::new(51);
    let mut second_changesets = ChangesetMap::new();
    second_changesets.insert(
        second_target,
        ChangesetRecord::new(vec![shared], Some(AuxId::new(510))),
    );
    second_changesets.insert(shared, ChangesetRecord::new(vec![], Some(AuxId::new(999))));
    let second = CreateBookmarkOp::new(&second_name, second_target, BookmarkUpdateReason::Push)
        .with_new_changesets(second_changesets);
    let r = second.run(&ctx, &mut store, &scratch_config(), &plain_params(), &open_attrs());
    match r {
        Err(BookmarkMovementError::StorageError { cause }) => {
            assert_eq!(cause, StorageErrorCause::AuxMappingConflict);
        }
        other => panic!("expected an auxiliary-mapping conflict, got {:?}", other),
    }
    assert!(store.get_public(&second_name).is_none());
    assert_eq!(store.get_aux(shared), Some(AuxId::new(500)));
    assert_eq!(store.get_aux(second_target), None);
}

#[test]
fn already_mapped_target_derives_no_hook() {
    let mut store = BookmarkStore::new();
    let ctx = CoreContext::new(1);

    let shared = ChangesetId::new(70);
    let first_name = BookmarkName::new("first".to_string());
    let mut first_changesets = ChangesetMap::new();
    first_changesets.insert(shared, ChangesetRecord::new(vec![], Some(AuxId::new(700))));
    let first = CreateBookmarkOp::new(&first_name, shared, BookmarkUpdateReason::Push)
        .with_new_changesets(first_changesets);
    assert!(first
        .run(&ctx, &mut store, &scratch_config(), &plain_params(), &open_attrs())
        .is_ok());

    // The same target again, under another name, now with a would-be
    // conflicting record: the target is already mapped, so nothing is
    // derived and nothing conflicts.
    let second_name = BookmarkName::new("second".to_string());
    let mut second_changesets = ChangesetMap::new();
    second_changesets.insert(shared, ChangesetRecord::new(vec![], Some(AuxId::new(999))));
    let second = CreateBookmarkOp::new(&second_name, shared, BookmarkUpdateReason::Push)
        .with_new_changesets(second_changesets);
    assert!(second
        .run(&ctx, &mut store, &scratch_config(), &plain_params(), &open_attrs())
        .is_ok());
    assert_eq!(store.get_aux(shared), Some(AuxId::new(700)));
}

#[test]
fn population_switched_off_derives_no_hook() {
    let mut store = BookmarkStore::new();
    let ctx = CoreContext::new(1);
    let name = BookmarkName::new("main".to_string());
    let target = ChangesetId::new(80);
    let mut changesets = ChangesetMap::new();
    changesets.insert(target, ChangesetRecord::new(vec![], Some(AuxId::new(800))));

    let no_population = PushrebaseParams::new(false, false);
    let op = CreateBookmarkOp::new(&name, target, BookmarkUpdateReason::Push)
        .with_new_changesets(changesets);
    assert!(op
        .run(&ctx, &mut store, &scratch_config(), &no_population, &open_attrs())
        .is_ok());
    assert_eq!(store.get_aux(target), None);
    assert_eq!(store.get_public(&name).unwrap().target, target);
}

#[test]
fn replay_metadata_is_passed_through_unmodified() {
    let mut store = BookmarkStore::new();
    let ctx = CoreContext::new(1);
    let name = BookmarkName::new("main".to_string());
    let replay = BundleReplayData::new(777);

    let op = CreateBookmarkOp::new(&name, ChangesetId::new(30), BookmarkUpdateReason::Blobimport)
        .with_bundle_replay_data(Some(&replay));
    assert!(op
        .run(&ctx, &mut store, &scratch_config(), &plain_params(), &open_attrs())
        .is_ok());

    let entry = store.get_public(&name).unwrap();
    assert_eq!(entry.replay, Some(BundleReplayData::new(777)));
    assert_eq!(entry.reason, BookmarkUpdateReason::Blobimport);
}

#[test]
fn attaching_changesets_twice_merges_last_write_wins() {
    let mut store = BookmarkStore::new();
    let ctx = CoreContext::new(1);
    let name = BookmarkName::new("main".to_string());
    let target = ChangesetId::new(40);

    let mut first = ChangesetMap::new();
    first.insert(target, ChangesetRecord::new(vec![], Some(AuxId::new(400))));
    let mut second = ChangesetMap::new();
    second.insert(target, ChangesetRecord::new(vec![], Some(AuxId::new(401))));

    // Overlapping keys are not an error; the later record wins, as the
    // hook derivation shows.
    let op = CreateBookmarkOp::new(&name, target, BookmarkUpdateReason::Push)
        .with_new_changesets(first)
        .with_new_changesets(second);
    assert!(op
        .run(&ctx, &mut store, &scratch_config(), &plain_params(), &open_attrs())
        .is_ok());
    assert_eq!(store.get_aux(target), Some(AuxId::new(401)));
}

#[test]
fn create_is_not_upsert_through_run() {
    let mut store = BookmarkStore::new();
    let ctx = CoreContext::new(1);
    let name = BookmarkName::new("main".to_string());

    let first = CreateBookmarkOp::new(&name, ChangesetId::new(1), BookmarkUpdateReason::Push);
    assert!(first
        .run(&ctx, &mut store, &scratch_config(), &plain_params(), &open_attrs())
        .is_ok());

    let second = CreateBookmarkOp::new(&name, ChangesetId::new(2), BookmarkUpdateReason::Push);
    let r = second.run(&ctx, &mut store, &scratch_config(), &plain_params(), &open_attrs());
    match r {
        Err(BookmarkMovementError::StorageError { cause }) => {
            assert_eq!(cause, StorageErrorCause::PointerAlreadyExists);
        }
        other => panic!("expected an already-exists failure, got {:?}", other),
    }
    assert_eq!(store.get_public(&name).unwrap().target, ChangesetId::new(1));
}

#[test]
fn no_namespace_classifies_everything_public() {
    let mut store = BookmarkStore::new();
    let ctx = CoreContext::new(1);
    let no_scratch = InfinitepushParams::new(None);
    let name = BookmarkName::new("scratch/alice/feature".to_string());

    let op = CreateBookmarkOp::new(&name, ChangesetId::new(8), BookmarkUpdateReason::Push)
        .only_if_public();
    assert!(op
        .run(&ctx, &mut store, &no_scratch, &plain_params(), &open_attrs())
        .is_ok());
    assert!(store.get_public(&name).is_some());
}
