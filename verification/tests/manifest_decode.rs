use pocket_drive::entry::{generate_system_path, FileEntry, Operation};
use pocket_drive::manifest::{
    decode_manifest, entries_from_objects, entry_from_fields, manifest_from_sections,
    operation_from_key, MalformedManifest, Manifest, RawField, RawSection, Scalar,
};

fn entry(path: &str, hash: Option<&str>, size: i64, time: i64, key: &str) -> FileEntry {
    FileEntry {
        file_path: path.to_string(),
        file_hash: hash.map(|h| h.to_string()),
        file_size: size,
        modified_time: time,
        storage_key: key.to_string(),
    }
}

fn field(name: &str, value: Scalar) -> RawField {
    RawField { name: name.to_string(), value }
}

fn text(value: &str) -> Scalar {
    Scalar::Text(value.to_string())
}

#[test]
fn storage_key_is_prefix_plus_name() {
    assert_eq!(generate_system_path("report.pdf"), "data/report.pdf");
    assert_eq!(generate_system_path(""), "data/");
    assert_eq!(generate_system_path("a/b c.txt"), "data/a/b c.txt");
}

#[test]
fn decodes_an_insert_and_a_delete() {
    let payload = r#"{"insert": [{"file_path": "a.txt", "file_size": 10, "modified_time": 1000}],
                      "delete": [{"file_path": "missing.txt"}]}"#;
    let manifest = decode_manifest(Some(payload)).unwrap();
    assert_eq!(
        manifest,
        Manifest {
            insert: Some(vec![entry("a.txt", None, 10, 1000, "data/a.txt")]),
            update: None,
            delete: Some(vec![entry("missing.txt", None, 0, 0, "data/missing.txt")]),
        }
    );
}

#[test]
fn decodes_every_field_of_an_entry() {
    let payload = r#"{"update": [{"file_name": "b.bin", "file_path": "/docs/b.bin",
                                  "file_hash": "abc123", "file_size": 0, "modified_time": -5,
                                  "comment": {"ignored": [1, 2.5, true]}}]}"#;
    let manifest = decode_manifest(Some(payload)).unwrap();
    assert_eq!(
        manifest,
        Manifest {
            insert: None,
            update: Some(vec![entry("/docs/b.bin", Some("abc123"), 0, -5, "data/b.bin")]),
            delete: None,
        }
    );
}

#[test]
fn null_hash_and_null_name_count_as_absent() {
    let payload = r#"{"insert": [{"file_path": "p", "file_hash": null, "file_name": null,
                                  "file_size": 9223372036854775807, "modified_time": 1}]}"#;
    let manifest = decode_manifest(Some(payload)).unwrap();
    assert_eq!(manifest.insert, Some(vec![entry("p", None, i64::MAX, 1, "data/p")]));
}

#[test]
fn empty_lists_are_kept_and_absent_operations_stay_absent() {
    let manifest = decode_manifest(Some(r#"{"insert": [], "delete": []}"#)).unwrap();
    assert_eq!(manifest, Manifest { insert: Some(vec![]), update: None, delete: Some(vec![]) });
    let manifest = decode_manifest(Some("{}")).unwrap();
    assert_eq!(manifest, Manifest { insert: None, update: None, delete: None });
}

#[test]
fn entries_keep_the_order_of_the_list() {
    let payload = r#"{"delete": [{"file_path": "z"}, {"file_path": "a"}, {"file_path": "m"}]}"#;
    let manifest = decode_manifest(Some(payload)).unwrap();
    let paths: Vec<String> = manifest.delete.unwrap().into_iter().map(|e| e.file_path).collect();
    assert_eq!(paths, vec!["z".to_string(), "a".to_string(), "m".to_string()]);
}

#[test]
fn unknown_top_level_key_fails_the_whole_decode() {
    let payload = r#"{"insert": [{"file_path": "a.txt", "file_size": 10, "modified_time": 1000}],
                      "rename": []}"#;
    assert_eq!(
        decode_manifest(Some(payload)),
        Err(MalformedManifest::UnknownOperation { key: "rename".to_string() })
    );
}

#[test]
fn operation_names_are_lower_case() {
    assert_eq!(
        decode_manifest(Some(r#"{"Insert": []}"#)),
        Err(MalformedManifest::UnknownOperation { key: "Insert".to_string() })
    );
    assert_eq!(operation_from_key(&"insert".to_string()), Some(Operation::Insert));
    assert_eq!(operation_from_key(&"update".to_string()), Some(Operation::Update));
    assert_eq!(operation_from_key(&"delete".to_string()), Some(Operation::Delete));
    assert_eq!(operation_from_key(&"DELETE".to_string()), None);
    assert_eq!(operation_from_key(&"".to_string()), None);
    assert_eq!(Operation::Insert.name(), "insert");
    assert_eq!(Operation::Update.name(), "update");
    assert_eq!(Operation::Delete.name(), "delete");
}

#[test]
fn absent_payload_is_malformed() {
    assert_eq!(decode_manifest(None), Err(MalformedManifest::Absent));
}

#[test]
fn text_that_is_not_an_object_of_lists_of_objects_is_unreadable() {
    for payload in [
        "",
        "not json",
        "[]",
        "42",
        r#"{"insert": {}}"#,
        r#"{"insert": [1]}"#,
        r#"{"insert": ["a.txt"]}"#,
        r#"{"insert": []} trailing"#,
        r#"{"insert": [}"#,
    ] {
        assert_eq!(decode_manifest(Some(payload)), Err(MalformedManifest::Unreadable), "{}", payload);
    }
}

#[test]
fn insert_entry_without_size_is_invalid() {
    let payload = r#"{"insert": [{"file_path": "a", "file_size": 1, "modified_time": 2},
                                 {"file_path": "b"}]}"#;
    assert_eq!(
        decode_manifest(Some(payload)),
        Err(MalformedManifest::InvalidEntry { operation: Operation::Insert, index: 1 })
    );
}

#[test]
fn fields_of_the_wrong_kind_make_an_entry_invalid() {
    for object in [
        r#"{"file_size": 1, "modified_time": 2}"#,
        r#"{"file_path": 7, "file_size": 1, "modified_time": 2}"#,
        r#"{"file_path": null, "file_size": 1, "modified_time": 2}"#,
        r#"{"file_path": "a", "file_size": -1, "modified_time": 2}"#,
        r#"{"file_path": "a", "file_size": 1.5, "modified_time": 2}"#,
        r#"{"file_path": "a", "file_size": "1", "modified_time": 2}"#,
        r#"{"file_path": "a", "file_size": 9223372036854775808, "modified_time": 2}"#,
        r#"{"file_path": "a", "file_size": null, "modified_time": 2}"#,
        r#"{"file_path": "a", "file_size": 1}"#,
        r#"{"file_path": "a", "file_size": 1, "modified_time": true}"#,
        r#"{"file_path": "a", "file_size": 1, "modified_time": 2, "file_hash": 5}"#,
        r#"{"file_path": "a", "file_size": 1, "modified_time": 2, "file_name": ["x"]}"#,
    ] {
        let payload = format!(r#"{{"update": [{}]}}"#, object);
        assert_eq!(
            decode_manifest(Some(payload.as_str())),
            Err(MalformedManifest::InvalidEntry { operation: Operation::Update, index: 0 }),
            "{}",
            object
        );
    }
}

#[test]
fn delete_entry_needs_only_a_path_but_what_it_gives_must_be_valid() {
    let manifest = decode_manifest(Some(r#"{"delete": [{"file_path": "x", "file_size": 3}]}"#)).unwrap();
    assert_eq!(manifest.delete, Some(vec![entry("x", None, 3, 0, "data/x")]));
    assert_eq!(
        decode_manifest(Some(r#"{"delete": [{"file_path": "x"}, {"file_size": 3}]}"#)),
        Err(MalformedManifest::InvalidEntry { operation: Operation::Delete, index: 1 })
    );
    assert_eq!(
        decode_manifest(Some(r#"{"delete": [{"file_path": "x", "file_size": -3}]}"#)),
        Err(MalformedManifest::InvalidEntry { operation: Operation::Delete, index: 0 })
    );
}

#[test]
fn first_defect_in_key_order_decides() {
    let payload = r#"{"update": [{"file_path": "b"}], "zap": [], "insert": [{}]}"#;
    assert_eq!(
        decode_manifest(Some(payload)),
        Err(MalformedManifest::InvalidEntry { operation: Operation::Insert, index: 0 })
    );
}

#[test]
fn sections_are_read_in_order_and_a_later_one_replaces_an_earlier() {
    let sections = vec![
        RawSection {
            kind: "delete".to_string(),
            entries: vec![vec![field("file_path", text("old"))]],
        },
        RawSection {
            kind: "delete".to_string(),
            entries: vec![vec![field("file_path", text("new"))]],
        },
    ];
    assert_eq!(
        manifest_from_sections(&sections),
        Ok(Manifest {
            insert: None,
            update: None,
            delete: Some(vec![entry("new", None, 0, 0, "data/new")]),
        })
    );
    let sections = vec![
        RawSection { kind: "move".to_string(), entries: vec![] },
        RawSection { kind: "insert".to_string(), entries: vec![vec![]] },
    ];
    assert_eq!(
        manifest_from_sections(&sections),
        Err(MalformedManifest::UnknownOperation { key: "move".to_string() })
    );
    assert_eq!(
        manifest_from_sections(&vec![]),
        Ok(Manifest { insert: None, update: None, delete: None })
    );
}

#[test]
fn first_field_of_a_name_counts() {
    let fields = vec![
        field("file_path", text("first")),
        field("file_path", text("second")),
        field("file_size", Scalar::Integer(4)),
        field("modified_time", Scalar::Integer(5)),
        field("file_hash", text("h")),
        field("other", Scalar::Other),
    ];
    assert_eq!(
        entry_from_fields(Operation::Insert, &fields),
        Some(entry("first", Some("h"), 4, 5, "data/first"))
    );
    assert_eq!(entry_from_fields(Operation::Insert, &vec![]), None);
    assert_eq!(entry_from_fields(Operation::Delete, &vec![]), None);
    assert_eq!(
        entry_from_fields(Operation::Insert, &vec![field("file_path", Scalar::Other)]),
        None
    );
}

#[test]
fn entries_from_objects_reports_the_first_invalid_place() {
    let good = || vec![field("file_path", text("p"))];
    let bad = || vec![field("file_path", Scalar::Null)];
    assert_eq!(entries_from_objects(Operation::Delete, &vec![good(), bad(), bad()]), Err(1));
    assert_eq!(entries_from_objects(Operation::Delete, &vec![bad()]), Err(0));
    assert_eq!(
        entries_from_objects(Operation::Delete, &vec![good(), good()]),
        Ok(vec![entry("p", None, 0, 0, "data/p"), entry("p", None, 0, 0, "data/p")])
    );
    assert_eq!(entries_from_objects(Operation::Insert, &vec![good()]), Err(0));
    assert_eq!(entries_from_objects(Operation::Insert, &vec![]), Ok(vec![]));
}

#[test]
fn defects_are_described_in_words() {
    assert_eq!(MalformedManifest::Absent.describe(), "Missing payload");
    assert_eq!(
        MalformedManifest::Unreadable.describe(),
        "Malformed manifest: not a JSON object of entry lists"
    );
    assert_eq!(
        MalformedManifest::UnknownOperation { key: "rename".to_string() }.describe(),
        "Malformed manifest: unknown operation rename"
    );
    assert_eq!(
        MalformedManifest::InvalidEntry { operation: Operation::Update, index: 3 }.describe(),
        "Malformed manifest: invalid entry under update"
    );
}
