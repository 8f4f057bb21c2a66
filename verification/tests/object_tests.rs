use indexer_read::object::{
    addr, Db, Error, GraphQLObjectKind, Object, ObjectKind, ObjectStatus, StoredHistoryObject,
    StoredObject, SuiAddress,
};

fn id(tag: u8) -> Vec<u8> {
    let mut v = vec![0u8; 32];
    v[31] = tag;
    v
}

fn address(tag: u8) -> SuiAddress {
    SuiAddress { bytes: id(tag) }
}

fn active_row(tag: u8, version: u64, seq: u64, contents: &[u8]) -> StoredHistoryObject {
    StoredHistoryObject {
        object_id: id(tag),
        object_version: version,
        object_status: 0,
        checkpoint_sequence_number: seq,
        serialized_object: Some(contents.to_vec()),
    }
}

fn removed_row(tag: u8, version: u64, seq: u64) -> StoredHistoryObject {
    StoredHistoryObject {
        object_id: id(tag),
        object_version: version,
        object_status: 1,
        checkpoint_sequence_number: seq,
        serialized_object: None,
    }
}

fn empty_db() -> Db {
    Db { objects: vec![], objects_snapshot: vec![], objects_history: vec![], checkpoints: vec![] }
}

#[test]
fn never_written_is_not_found_for_any_parameters() {
    let mut db = empty_db();
    db.objects_history.push(active_row(9, 1, 10, b"other"));
    db.checkpoints = vec![10, 20];

    assert_eq!(Object::query(&db, address(1), None, None), Ok(None));
    assert_eq!(Object::query(&db, address(1), Some(1), None), Ok(None));
    assert_eq!(Object::query(&db, address(1), None, Some(20)), Ok(None));
    assert_eq!(Object::query(&db, address(1), Some(3), Some(20)), Ok(None));
}

#[test]
fn pruned_history_without_snapshot_is_out_of_range() {
    let mut db = empty_db();
    // The key's only row sits below the snapshot boundary at sequence 50.
    db.objects_history.push(active_row(1, 1, 5, b"old"));
    db.objects_snapshot.push(active_row(9, 7, 50, b"other"));
    db.checkpoints = vec![60];

    let got = Object::query(&db, address(1), Some(1), Some(60)).unwrap().unwrap();
    assert_eq!(got.status(), GraphQLObjectKind::OutsideAvailableRange);
    assert_eq!(got.version(), None);
    assert_eq!(got.address.bytes, id(1));
}

#[test]
fn snapshot_hit_returns_that_exact_row() {
    let mut db = empty_db();
    db.objects_snapshot.push(active_row(1, 5, 30, b"hello"));
    db.checkpoints = vec![40];

    let got = Object::query(&db, address(1), Some(5), Some(30)).unwrap().unwrap();
    assert_eq!(got.status(), GraphQLObjectKind::Historical);
    assert_eq!(got.version(), Some(5));
    match &got.kind {
        ObjectKind::Historical(native, row) => {
            assert_eq!(native.contents, b"hello".to_vec());
            assert_eq!(row.checkpoint_sequence_number, 30);
        }
        other => panic!("unexpected kind: {:?}", other),
    }
}

#[test]
fn resolve_is_idempotent_on_an_unchanged_store() {
    let mut db = empty_db();
    db.objects_history.push(active_row(1, 1, 10, b"a"));
    db.objects_history.push(removed_row(1, 2, 20));
    db.objects_snapshot.push(active_row(1, 1, 10, b"a"));
    db.checkpoints = vec![10, 20];

    let first = Object::query(&db, address(1), None, Some(15));
    let second = Object::query(&db, address(1), None, Some(15));
    assert_eq!(first, second);

    let third = Object::query(&db, address(1), Some(2), None);
    let fourth = Object::query(&db, address(1), Some(2), None);
    assert_eq!(third, fourth);
}

#[test]
fn found_stays_found_at_a_later_bound_with_fixed_retention() {
    let mut db = empty_db();
    db.objects_history.push(active_row(1, 1, 10, b"a"));
    db.checkpoints = vec![10, 19];

    let at_15 = Object::query(&db, address(1), Some(1), Some(15)).unwrap().unwrap();
    assert_eq!(at_15.status(), GraphQLObjectKind::Historical);
    let at_19 = Object::query(&db, address(1), Some(1), Some(19)).unwrap().unwrap();
    assert_eq!(at_19.status(), GraphQLObjectKind::Historical);
    assert_eq!(at_19.version(), Some(1));
}

#[test]
fn version_history_scenario() {
    // Versions 1 (sequence 10, active) and 2 (sequence 20, removed); no 3.
    let mut db = empty_db();
    db.objects_history.push(active_row(1, 1, 10, b"one"));
    db.objects_history.push(removed_row(1, 2, 20));
    db.checkpoints = vec![10, 20];

    let at_15 = Object::query(&db, address(1), None, Some(15)).unwrap().unwrap();
    assert_eq!(at_15.version(), Some(1));
    assert_eq!(at_15.status(), GraphQLObjectKind::Historical);

    let at_25 = Object::query(&db, address(1), None, Some(25)).unwrap().unwrap();
    assert_eq!(at_25.version(), Some(2));
    assert_eq!(at_25.status(), GraphQLObjectKind::WrappedOrDeleted);

    assert_eq!(Object::query(&db, address(1), Some(3), None), Ok(None));
}

#[test]
fn live_lookup_ignores_history() {
    let mut db = empty_db();
    db.objects.push(StoredObject {
        object_id: id(1),
        object_version: 4,
        serialized_object: b"live".to_vec(),
    });
    db.objects_history.push(active_row(1, 1, 10, b"old"));
    db.checkpoints = vec![10];

    let got = Object::query(&db, address(1), None, None).unwrap().unwrap();
    assert_eq!(got.status(), GraphQLObjectKind::Live);
    assert_eq!(got.version(), Some(4));
    match &got.kind {
        ObjectKind::Live(native, _) => assert_eq!(native.contents, b"live".to_vec()),
        other => panic!("unexpected kind: {:?}", other),
    }
}

#[test]
fn corrupt_rows_surface_errors() {
    // Unknown status code.
    let mut bad_status = active_row(1, 1, 10, b"x");
    bad_status.object_status = 7;
    assert_eq!(Object::try_from(bad_status), Err(Error::UnknownStatus));

    // Active row without content.
    let mut no_content = active_row(1, 1, 10, b"x");
    no_content.serialized_object = None;
    assert_eq!(Object::try_from(no_content), Err(Error::MissingContent));

    // Identifier of the wrong width.
    let mut short_id = active_row(1, 1, 10, b"x");
    short_id.object_id = vec![0u8; 31];
    assert_eq!(Object::try_from(short_id), Err(Error::BadAddress));
    assert_eq!(addr(&vec![0u8; 31]), Err(Error::BadAddress));
    assert!(addr(&vec![0u8; 32]).is_ok());

    // A corrupt winning row fails the whole query.
    let mut db = empty_db();
    let mut row = active_row(1, 1, 10, b"x");
    row.object_status = 7;
    db.objects_history.push(row);
    db.checkpoints = vec![10];
    assert_eq!(Object::query(&db, address(1), Some(1), Some(10)), Err(Error::UnknownStatus));
}

#[test]
fn objects_from_decoded_state_are_not_indexed() {
    let native = indexer_read::object::NativeObject { version: 3, contents: b"raw".to_vec() };
    let obj = Object::from_native(address(1), native);
    assert_eq!(obj.status(), GraphQLObjectKind::NotIndexed);
    assert_eq!(obj.version(), Some(3));
    assert_eq!(obj.native_impl().unwrap().contents, b"raw".to_vec());
    assert_eq!(obj.address().bytes, id(1));

    let gone = Object {
        address: address(1),
        kind: ObjectKind::OutsideAvailableRange,
    };
    assert!(gone.native_impl().is_none());
    assert_eq!(gone.version(), None);
}

#[test]
fn status_codes_decode() {
    assert_eq!(ObjectStatus::try_from_code(0), Some(ObjectStatus::Active));
    assert_eq!(ObjectStatus::try_from_code(1), Some(ObjectStatus::WrappedOrDeleted));
    assert_eq!(ObjectStatus::try_from_code(2), None);
    assert_eq!(ObjectStatus::try_from_code(-1), None);
}

#[test]
fn duplicate_rows_across_tiers_are_harmless() {
    // The same row near a snapshot boundary, in both tables.
    let mut db = empty_db();
    db.objects_snapshot.push(active_row(1, 1, 10, b"same"));
    db.objects_history.push(active_row(1, 1, 10, b"same"));
    db.checkpoints = vec![10];

    let got = Object::query(&db, address(1), Some(1), Some(10)).unwrap().unwrap();
    assert_eq!(got.version(), Some(1));
    match &got.kind {
        ObjectKind::Historical(native, _) => assert_eq!(native.contents, b"same".to_vec()),
        other => panic!("unexpected kind: {:?}", other),
    }
}

#[test]
fn maximal_bound_sees_the_latest_state() {
    let mut db = empty_db();
    db.objects_history.push(active_row(1, 1, 10, b"a"));
    db.objects_history.push(active_row(1, 2, 30, b"b"));
    db.checkpoints = vec![10, 30];

    let got = Object::query(&db, address(1), None, Some(u64::MAX)).unwrap().unwrap();
    assert_eq!(got.version(), Some(2));
}

#[test]
fn caller_bound_excludes_later_writes() {
    // A write after the requested bound is not visible.
    let mut db = empty_db();
    db.objects_history.push(active_row(1, 1, 10, b"a"));
    db.objects_history.push(active_row(1, 2, 30, b"b"));
    db.checkpoints = vec![10, 30];

    let got = Object::query(&db, address(1), None, Some(20)).unwrap().unwrap();
    assert_eq!(got.version(), Some(1));
}
