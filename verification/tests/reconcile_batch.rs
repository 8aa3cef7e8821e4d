use pocket_drive::blob::BlobStore;
use pocket_drive::engine::Engine;
use pocket_drive::entry::FileEntry;
use pocket_drive::gateway::{Action, BlobRemoval, Event, GatewayError};
use pocket_drive::manifest::{decode_manifest, Manifest};
use pocket_drive::reconcile::{perform, reconcile};
use pocket_drive::report::{FailureKind, FileFailure, OperationResult, SyncResponse};
use pocket_drive::store::MetadataStore;

fn entry(path: &str, hash: Option<&str>, size: i64, time: i64) -> FileEntry {
    FileEntry {
        file_path: path.to_string(),
        file_hash: hash.map(|h| h.to_string()),
        file_size: size,
        modified_time: time,
        storage_key: format!("data/{}", path),
    }
}

fn failure(path: &str, kind: FailureKind, text: &str) -> FileFailure {
    FileFailure { file_path: path.to_string(), kind, error: text.to_string() }
}

fn only_inserts(entries: Vec<FileEntry>) -> Manifest {
    Manifest { insert: Some(entries), update: None, delete: None }
}

fn only_updates(entries: Vec<FileEntry>) -> Manifest {
    Manifest { insert: None, update: Some(entries), delete: None }
}

fn only_deletes(entries: Vec<FileEntry>) -> Manifest {
    Manifest { insert: None, update: None, delete: Some(entries) }
}

#[test]
fn insert_and_missing_delete_against_an_empty_store() {
    let payload = r#"{"insert": [{"file_path": "a.txt", "file_size": 10, "modified_time": 1000}],
                      "delete": [{"file_path": "missing.txt"}]}"#;
    let manifest = decode_manifest(Some(payload)).unwrap();
    let mut store = MetadataStore::new();
    let mut blobs = BlobStore::new();
    let response = reconcile(manifest, &mut store, &mut blobs);
    assert_eq!(
        response,
        SyncResponse {
            insert: Some(OperationResult {
                success: vec![entry("a.txt", None, 10, 1000)],
                failure: vec![],
            }),
            update: None,
            delete: Some(OperationResult {
                success: vec![],
                failure: vec![failure("missing.txt", FailureKind::NotFound, "file not found in DB")],
            }),
        }
    );
    assert_eq!(store.list_all(), vec![entry("a.txt", None, 10, 1000)]);
}

#[test]
fn malformed_payload_reaches_no_store() {
    let payload = r#"{"insert": [{"file_path": "a.txt", "file_size": 10, "modified_time": 1000}],
                      "rename": [{"file_path": "a.txt"}]}"#;
    let store = MetadataStore::new();
    assert!(decode_manifest(Some(payload)).is_err());
    assert_eq!(store.len(), 0);
}

#[test]
fn insert_twice_gives_one_success_one_conflict_and_one_row() {
    let mut store = MetadataStore::new();
    let mut blobs = BlobStore::new();
    let e = entry("a.txt", Some("h"), 10, 1000);
    let response = reconcile(only_inserts(vec![e.clone(), e.clone()]), &mut store, &mut blobs);
    assert_eq!(
        response.insert,
        Some(OperationResult {
            success: vec![e.clone()],
            failure: vec![failure("a.txt", FailureKind::Conflict, "file path already exists")],
        })
    );
    assert_eq!(store.list_all(), vec![e]);
}

#[test]
fn update_or_delete_of_a_missing_path_fails_and_keeps_the_count() {
    let mut store = MetadataStore::new();
    let mut blobs = BlobStore::new();
    store.insert(entry("kept", None, 1, 1)).unwrap();
    let manifest = Manifest {
        insert: None,
        update: Some(vec![entry("p", None, 2, 2)]),
        delete: Some(vec![entry("p", None, 0, 0)]),
    };
    let response = reconcile(manifest, &mut store, &mut blobs);
    let expected = OperationResult {
        success: vec![],
        failure: vec![failure("p", FailureKind::NotFound, "file not found in DB")],
    };
    assert_eq!(response.update.as_ref(), Some(&expected));
    assert_eq!(response.delete.as_ref(), Some(&expected));
    assert_eq!(response.insert, None);
    assert_eq!(store.len(), 1);
}

#[test]
fn delete_with_the_blob_store_out_of_reach_loses_the_row_and_reports_a_failure() {
    let mut store = MetadataStore::new();
    let mut blobs = BlobStore::new();
    store.insert(entry("p", None, 1, 1)).unwrap();
    blobs.put("data/p".to_string(), vec![1, 2, 3]).unwrap();
    blobs.set_online(false);
    let response = reconcile(only_deletes(vec![entry("p", None, 0, 0)]), &mut store, &mut blobs);
    assert_eq!(
        response.delete,
        Some(OperationResult {
            success: vec![],
            failure: vec![failure(
                "p",
                FailureKind::Storage,
                "File delete failed: blob store unreachable"
            )],
        })
    );
    assert_eq!(store.list_all(), vec![]);
    blobs.set_online(true);
    assert!(blobs.contains(&"data/p".to_string()));
}

#[test]
fn delete_removes_row_and_blob_and_echoes_the_entry_as_given() {
    let mut store = MetadataStore::new();
    let mut blobs = BlobStore::new();
    let mut row = entry("p", Some("h"), 5, 6);
    row.storage_key = "data/uploaded-name".to_string();
    store.insert(row).unwrap();
    blobs.put("data/uploaded-name".to_string(), vec![7]).unwrap();
    blobs.put("data/p".to_string(), vec![8]).unwrap();
    let asked = entry("p", None, 0, 0);
    let response = reconcile(only_deletes(vec![asked.clone()]), &mut store, &mut blobs);
    assert_eq!(response.delete, Some(OperationResult { success: vec![asked], failure: vec![] }));
    assert_eq!(store.len(), 0);
    assert!(!blobs.contains(&"data/uploaded-name".to_string()));
    assert!(blobs.contains(&"data/p".to_string()));
}

#[test]
fn delete_of_a_row_without_a_blob_succeeds() {
    let mut store = MetadataStore::new();
    let mut blobs = BlobStore::new();
    store.insert(entry("p", None, 1, 1)).unwrap();
    let response = reconcile(only_deletes(vec![entry("p", None, 1, 1)]), &mut store, &mut blobs);
    assert_eq!(
        response.delete,
        Some(OperationResult { success: vec![entry("p", None, 1, 1)], failure: vec![] })
    );
    assert_eq!(store.len(), 0);
}

#[test]
fn the_same_update_batch_twice_succeeds_twice_with_the_same_rows() {
    let mut store = MetadataStore::new();
    let mut blobs = BlobStore::new();
    store.insert(entry("a", None, 1, 1)).unwrap();
    store.insert(entry("b", None, 2, 2)).unwrap();
    let change = entry("a", Some("new"), 10, 20);
    let first = reconcile(only_updates(vec![change.clone()]), &mut store, &mut blobs);
    let rows = store.list_all();
    let second = reconcile(only_updates(vec![change.clone()]), &mut store, &mut blobs);
    assert_eq!(first.update, Some(OperationResult { success: vec![change], failure: vec![] }));
    assert_eq!(second, first);
    assert_eq!(store.list_all(), rows);
}

#[test]
fn a_failure_does_not_keep_later_entries_from_being_processed() {
    let mut store = MetadataStore::new();
    let mut blobs = BlobStore::new();
    store.insert(entry("b", None, 0, 0)).unwrap();
    let manifest = Manifest {
        insert: Some(vec![entry("a", None, 1, 1), entry("b", None, 2, 2), entry("c", None, 3, 3)]),
        update: Some(vec![entry("zz", None, 1, 1), entry("c", Some("h"), 33, 333)]),
        delete: Some(vec![entry("nope", None, 0, 0), entry("a", None, 0, 0)]),
    };
    let response = reconcile(manifest, &mut store, &mut blobs);
    assert_eq!(
        response,
        SyncResponse {
            insert: Some(OperationResult {
                success: vec![entry("a", None, 1, 1), entry("c", None, 3, 3)],
                failure: vec![failure("b", FailureKind::Conflict, "file path already exists")],
            }),
            update: Some(OperationResult {
                success: vec![entry("c", Some("h"), 33, 333)],
                failure: vec![failure("zz", FailureKind::NotFound, "file not found in DB")],
            }),
            delete: Some(OperationResult {
                success: vec![entry("a", None, 0, 0)],
                failure: vec![failure("nope", FailureKind::NotFound, "file not found in DB")],
            }),
        }
    );
    assert_eq!(store.list_all(), vec![entry("b", None, 0, 0), entry("c", Some("h"), 33, 333)]);
}

#[test]
fn perform_answers_each_request_from_the_stores() {
    let mut store = MetadataStore::new();
    let mut blobs = BlobStore::new();
    blobs.put("data/a".to_string(), vec![1]).unwrap();
    assert_eq!(
        perform(Action::InsertRow { entry: entry("a", None, 1, 1) }, &mut store, &mut blobs),
        Some(Event::RowInserted(Ok(entry("a", None, 1, 1))))
    );
    assert_eq!(
        perform(Action::UpdateRow { entry: entry("a", Some("h"), 2, 2) }, &mut store, &mut blobs),
        Some(Event::RowUpdated(Ok(entry("a", Some("h"), 2, 2))))
    );
    assert_eq!(
        perform(Action::DeleteRow { file_path: "a".to_string() }, &mut store, &mut blobs),
        Some(Event::RowDeleted(Ok("data/a".to_string())))
    );
    assert_eq!(
        perform(Action::DeleteRow { file_path: "a".to_string() }, &mut store, &mut blobs),
        Some(Event::RowDeleted(Err(GatewayError {
            kind: FailureKind::NotFound,
            message: "file not found in DB".to_string(),
        })))
    );
    assert_eq!(
        perform(Action::DeleteBlob { storage_key: "data/a".to_string() }, &mut store, &mut blobs),
        Some(Event::BlobDeleted(Ok(BlobRemoval::Removed)))
    );
    assert_eq!(perform(Action::Finish, &mut store, &mut blobs), None);
    assert_eq!(store.len(), 0);
    assert_eq!(blobs.len(), 0);
}

#[test]
fn driving_the_engine_by_hand_gives_what_reconcile_gives() {
    let manifest = || Manifest {
        insert: Some(vec![entry("a", None, 1, 1), entry("a", None, 2, 2)]),
        update: Some(vec![entry("a", Some("h"), 3, 3)]),
        delete: Some(vec![entry("a", None, 0, 0), entry("a", None, 0, 0)]),
    };
    let mut store = MetadataStore::new();
    let mut blobs = BlobStore::new();
    let expected = reconcile(manifest(), &mut store, &mut blobs);

    let mut store = MetadataStore::new();
    let mut blobs = BlobStore::new();
    let mut engine = Engine::new(manifest());
    while let Some(event) = perform(engine.action(), &mut store, &mut blobs) {
        engine.step(event);
    }
    assert_eq!(engine.into_response(), expected);
}
