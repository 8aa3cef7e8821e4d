use pocket_drive::blob::BlobStore;
use pocket_drive::entry::FileEntry;
use pocket_drive::gateway::{BlobRemoval, GatewayError};
use pocket_drive::report::FailureKind;
use pocket_drive::store::MetadataStore;

fn entry(path: &str, hash: Option<&str>, size: i64, time: i64) -> FileEntry {
    FileEntry {
        file_path: path.to_string(),
        file_hash: hash.map(|h| h.to_string()),
        file_size: size,
        modified_time: time,
        storage_key: format!("data/{}", path),
    }
}

fn count(store: &MetadataStore, path: &str) -> usize {
    store.list_all().iter().filter(|row| row.file_path == path).count()
}

#[test]
fn insert_then_list_has_exactly_one_row_with_the_path() {
    let mut store = MetadataStore::new();
    assert_eq!(store.len(), 0);
    assert_eq!(store.list_all(), vec![]);
    let a = entry("a.txt", Some("h1"), 10, 1000);
    assert_eq!(store.insert(a.clone()), Ok(a.clone()));
    assert_eq!(count(&store, "a.txt"), 1);
    let b = entry("b.txt", None, 20, 2000);
    assert_eq!(store.insert(b.clone()), Ok(b.clone()));
    assert_eq!(store.list_all(), vec![a, b]);
    assert_eq!(count(&store, "a.txt"), 1);
    assert_eq!(count(&store, "b.txt"), 1);
    assert!(store.contains(&"a.txt".to_string()));
    assert!(!store.contains(&"c.txt".to_string()));
}

#[test]
fn second_insert_of_a_path_is_a_conflict_and_changes_nothing() {
    let mut store = MetadataStore::new();
    let first = entry("a.txt", Some("h1"), 10, 1000);
    let second = entry("a.txt", Some("h2"), 11, 1001);
    assert_eq!(store.insert(first.clone()), Ok(first.clone()));
    assert_eq!(
        store.insert(second),
        Err(GatewayError {
            kind: FailureKind::Conflict,
            message: "file path already exists".to_string(),
        })
    );
    assert_eq!(store.list_all(), vec![first]);
    assert_eq!(count(&store, "a.txt"), 1);
}

#[test]
fn update_and_delete_of_a_missing_path_are_not_found_and_change_nothing() {
    let mut store = MetadataStore::new();
    let kept = entry("kept", None, 1, 2);
    store.insert(kept.clone()).unwrap();
    let not_found = GatewayError {
        kind: FailureKind::NotFound,
        message: "file not found in DB".to_string(),
    };
    assert_eq!(store.update(&entry("gone", None, 5, 6)), Err(not_found));
    assert_eq!(store.len(), 1);
    let not_found = GatewayError {
        kind: FailureKind::NotFound,
        message: "file not found in DB".to_string(),
    };
    assert_eq!(store.delete_returning_storage_key(&"gone".to_string()), Err(not_found));
    assert_eq!(store.len(), 1);
    assert_eq!(store.list_all(), vec![kept]);
}

#[test]
fn update_sets_hash_size_and_time_and_keeps_path_key_and_place() {
    let mut store = MetadataStore::new();
    store.insert(entry("a", None, 1, 1)).unwrap();
    store.insert(entry("b", Some("old"), 2, 2)).unwrap();
    store.insert(entry("c", None, 3, 3)).unwrap();
    let change = FileEntry {
        file_path: "b".to_string(),
        file_hash: Some("new".to_string()),
        file_size: 22,
        modified_time: 222,
        storage_key: "data/elsewhere".to_string(),
    };
    let persisted = entry("b", Some("new"), 22, 222);
    assert_eq!(store.update(&change), Ok(persisted.clone()));
    assert_eq!(store.list_all(), vec![entry("a", None, 1, 1), persisted, entry("c", None, 3, 3)]);
}

#[test]
fn the_same_update_twice_succeeds_twice_and_leaves_the_same_rows() {
    let mut store = MetadataStore::new();
    store.insert(entry("a", None, 1, 1)).unwrap();
    let change = entry("a", Some("h"), 7, 8);
    let first = store.update(&change);
    let after_first = store.list_all();
    let second = store.update(&change);
    assert_eq!(first, Ok(entry("a", Some("h"), 7, 8)));
    assert_eq!(second, first);
    assert_eq!(store.list_all(), after_first);
}

#[test]
fn delete_returns_the_storage_key_the_row_held() {
    let mut store = MetadataStore::new();
    store.insert(entry("a", None, 1, 1)).unwrap();
    let mut odd = entry("b", None, 2, 2);
    odd.storage_key = "data/special".to_string();
    store.insert(odd).unwrap();
    store.insert(entry("c", None, 3, 3)).unwrap();
    assert_eq!(store.delete_returning_storage_key(&"b".to_string()), Ok("data/special".to_string()));
    assert_eq!(store.list_all(), vec![entry("a", None, 1, 1), entry("c", None, 3, 3)]);
    assert_eq!(count(&store, "b"), 0);
    assert_eq!(store.insert(entry("b", None, 9, 9)), Ok(entry("b", None, 9, 9)));
    assert_eq!(store.len(), 3);
}

#[test]
fn put_overwrites_and_delete_tells_removed_from_missing() {
    let mut blobs = BlobStore::new();
    assert_eq!(blobs.len(), 0);
    assert_eq!(blobs.put("data/a".to_string(), vec![1, 2, 3]), Ok(()));
    assert_eq!(blobs.put("data/b".to_string(), vec![]), Ok(()));
    assert_eq!(blobs.put("data/a".to_string(), vec![9]), Ok(()));
    assert_eq!(blobs.len(), 2);
    assert!(blobs.contains(&"data/a".to_string()));
    assert_eq!(blobs.delete(&"data/a".to_string()), Ok(BlobRemoval::Removed));
    assert_eq!(blobs.delete(&"data/a".to_string()), Ok(BlobRemoval::Missing));
    assert!(!blobs.contains(&"data/a".to_string()));
    assert!(blobs.contains(&"data/b".to_string()));
    assert_eq!(blobs.len(), 1);
}

#[test]
fn a_store_out_of_reach_fails_every_request_and_keeps_its_objects() {
    let mut blobs = BlobStore::new();
    blobs.put("data/a".to_string(), vec![1]).unwrap();
    blobs.set_online(false);
    let unreachable = || GatewayError {
        kind: FailureKind::Storage,
        message: "blob store unreachable".to_string(),
    };
    assert_eq!(blobs.put("data/b".to_string(), vec![2]), Err(unreachable()));
    assert_eq!(blobs.delete(&"data/a".to_string()), Err(unreachable()));
    assert_eq!(blobs.len(), 1);
    blobs.set_online(true);
    assert_eq!(blobs.delete(&"data/a".to_string()), Ok(BlobRemoval::Removed));
    assert_eq!(blobs.len(), 0);
}
