use pocket_drive::entry::FileEntry;
use pocket_drive::gateway::{Action, Event, GatewayError};
use pocket_drive::report::{FailureKind, FileFailure, OperationResult, SyncResponse};
use pocket_drive::service::{
    begin_sync, finish_sync, link_reply, link_request, listing_reply, upload_failure, upload_key,
    Link, ListingReply, Rejection, BANNER, BUCKET, DEFAULT_LINK_SECONDS, FILES_FIELD,
    LONGEST_LINK_SECONDS, PAYLOAD_FIELD, STATUS_ACCEPTED, STATUS_BAD_REQUEST, STATUS_OK,
    STATUS_SERVER_ERROR, UPLOAD_CONTENT_TYPE,
};
use std::time::Duration;

fn entry(path: &str) -> FileEntry {
    FileEntry {
        file_path: path.to_string(),
        file_hash: None,
        file_size: 10,
        modified_time: 1000,
        storage_key: format!("data/{}", path),
    }
}

#[test]
fn constants_of_the_service() {
    assert_eq!(STATUS_OK, 200);
    assert_eq!(STATUS_ACCEPTED, 202);
    assert_eq!(STATUS_BAD_REQUEST, 400);
    assert_eq!(STATUS_SERVER_ERROR, 500);
    assert_eq!(DEFAULT_LINK_SECONDS, 300);
    assert_eq!(LONGEST_LINK_SECONDS, 7 * 24 * 60 * 60);
    assert_eq!(BUCKET, "pocket-directory");
    assert_eq!(UPLOAD_CONTENT_TYPE, "application/octet-stream");
    assert_eq!(BANNER, "Pocket Drive is running!");
    assert_eq!(PAYLOAD_FIELD, "payload");
    assert_eq!(FILES_FIELD, "files");
}

#[test]
fn upload_key_is_derived_from_the_declared_name() {
    assert_eq!(upload_key(Some("photo.jpg")), "data/photo.jpg");
    assert_eq!(upload_key(None), "data/unknown");
    assert_eq!(upload_key(Some("")), "data/");
}

#[test]
fn a_failed_upload_is_reported_under_its_key() {
    let error = GatewayError { kind: FailureKind::Transient, message: "connection reset".to_string() };
    assert_eq!(
        upload_failure(&"data/photo.jpg".to_string(), &error),
        FileFailure {
            file_path: "data/photo.jpg".to_string(),
            kind: FailureKind::Storage,
            error: "File upload failed: connection reset".to_string(),
        }
    );
}

#[test]
fn a_request_without_payload_is_refused() {
    assert_eq!(
        begin_sync(None).unwrap_err(),
        Rejection { status: 400, error: "Missing payload".to_string() }
    );
}

#[test]
fn a_malformed_payload_is_refused_as_a_whole() {
    assert_eq!(
        begin_sync(Some(r#"{"rename": []}"#)).unwrap_err(),
        Rejection { status: 400, error: "Malformed manifest: unknown operation rename".to_string() }
    );
    assert_eq!(
        begin_sync(Some("{")).unwrap_err(),
        Rejection {
            status: 400,
            error: "Malformed manifest: not a JSON object of entry lists".to_string(),
        }
    );
    assert_eq!(
        begin_sync(Some(r#"{"insert": [{"file_path": "a"}]}"#)).unwrap_err(),
        Rejection { status: 400, error: "Malformed manifest: invalid entry under insert".to_string() }
    );
}

#[test]
fn a_batch_that_fails_in_part_is_still_accepted() {
    let payload = r#"{"insert": [{"file_path": "a.txt", "file_size": 10, "modified_time": 1000}]}"#;
    let mut engine = begin_sync(Some(payload)).unwrap();
    assert_eq!(engine.action(), Action::InsertRow { entry: entry("a.txt") });
    let conflict = GatewayError { kind: FailureKind::Conflict, message: "duplicate key".to_string() };
    assert_eq!(engine.step(Event::RowInserted(Err(conflict))), Action::Finish);
    let reply = finish_sync(engine);
    assert_eq!(reply.status, 202);
    assert_eq!(
        reply.body,
        SyncResponse {
            insert: Some(OperationResult {
                success: vec![],
                failure: vec![FileFailure {
                    file_path: "a.txt".to_string(),
                    kind: FailureKind::Conflict,
                    error: "duplicate key".to_string(),
                }],
            }),
            update: None,
            delete: None,
        }
    );
}

#[test]
fn listing_replies_with_rows_or_with_the_error() {
    assert_eq!(
        listing_reply(Ok(vec![entry("a"), entry("b")])),
        ListingReply { status: 200, data: Some(vec![entry("a"), entry("b")]), error: None }
    );
    assert_eq!(
        listing_reply(Ok(vec![])),
        ListingReply { status: 200, data: Some(vec![]), error: None }
    );
    let error = GatewayError { kind: FailureKind::Transient, message: "pool timed out".to_string() };
    assert_eq!(
        listing_reply(Err(error)),
        ListingReply { status: 500, data: None, error: Some("pool timed out".to_string()) }
    );
}

#[test]
fn a_link_request_names_a_key_and_a_time_of_at_most_a_week() {
    let key = "data/a.txt".to_string();
    let asked = link_request(Some(&key), DEFAULT_LINK_SECONDS).unwrap();
    assert_eq!(asked.storage_key, "data/a.txt");
    assert_eq!(asked.expires_in_seconds, 300);
    assert_eq!(asked.config.expires(), Duration::from_secs(300));
    let asked = link_request(Some(&key), LONGEST_LINK_SECONDS).unwrap();
    assert_eq!(asked.config.expires(), Duration::from_secs(604800));
    let asked = link_request(Some(&key), 0).unwrap();
    assert_eq!(asked.config.expires(), Duration::from_secs(0));
}

#[test]
fn a_link_request_without_key_or_for_too_long_is_refused() {
    let key = "data/a.txt".to_string();
    assert_eq!(
        link_request(None, 300).unwrap_err(),
        Rejection { status: 400, error: "Missing path".to_string() }
    );
    assert_eq!(
        link_request(None, u64::MAX).unwrap_err(),
        Rejection { status: 400, error: "Missing path".to_string() }
    );
    assert_eq!(
        link_request(Some(&key), LONGEST_LINK_SECONDS + 1).unwrap_err(),
        Rejection {
            status: 500,
            error: "Failed to generate URL: expiry is longer than one week".to_string(),
        }
    );
}

#[test]
fn a_link_reply_carries_the_url_or_the_error() {
    assert_eq!(
        link_reply(300, Ok("https://bucket.example/data/a.txt?sig=1".to_string())),
        Ok(Link {
            status: 200,
            url: "https://bucket.example/data/a.txt?sig=1".to_string(),
            expires_in_seconds: 300,
        })
    );
    let error = GatewayError { kind: FailureKind::Storage, message: "no credentials".to_string() };
    assert_eq!(
        link_reply(300, Err(error)),
        Err(Rejection { status: 500, error: "Failed to generate URL: no credentials".to_string() })
    );
}
