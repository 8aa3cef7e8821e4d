//! What the service answers: how a batch request is opened and closed, under
//! which key an attached file is stored, and what the two read requests
//! (list every row, issue a link to read one object) reply.

use crate::engine::{Engine, EngineView};
use crate::entry::{generate_system_path, system_path, FileEntry, FileEntryView};
use crate::gateway::{GatewayError, GatewayErrorView};
use crate::manifest::{decode_manifest, description, manifest_of_payload};
use crate::report::{FailureKind, FileFailure, FileFailureView, SyncResponse, SyncResponseView};
use aws_sdk_s3::presigning::{PresigningConfig, PresigningConfigError};
use std::time::Duration;
use vstd::prelude::*;
use vstd::string::*;

verus! {

/// `PresigningConfig` of `aws-sdk-s3`: how long a presigned request is to
/// be valid, and from when. Carried through as it is; nothing is claimed of
/// what it holds.
#[verifier::external_type_specification]
#[verifier::external_body]
pub struct ExPresigningConfig(aws_sdk_s3::presigning::PresigningConfig);

/// `PresigningConfigError` of `aws-sdk-s3`: why no `PresigningConfig` was
/// made. Nothing is claimed of what it holds.
#[verifier::external_type_specification]
#[verifier::external_body]
pub struct ExPresigningConfigError(aws_sdk_s3::presigning::PresigningConfigError);

/// The status of a reply that carries what was asked for.
pub const STATUS_OK: u16 = 200;

/// The status of the reply to a batch that was processed, whether or not
/// every entry succeeded.
pub const STATUS_ACCEPTED: u16 = 202;

/// The status of the reply to a request that cannot be understood.
pub const STATUS_BAD_REQUEST: u16 = 400;

/// The status of the reply to a request that a backend failed.
pub const STATUS_SERVER_ERROR: u16 = 500;

/// The time for which a link to read an object is valid, unless configured.
pub const DEFAULT_LINK_SECONDS: u64 = 300;

/// The longest time for which a link to read an object can be valid: one week.
pub const LONGEST_LINK_SECONDS: u64 = 604800;

/// The bucket that holds every object.
pub const BUCKET: &'static str = "pocket-directory";

/// The content type under which attached files are stored.
pub const UPLOAD_CONTENT_TYPE: &'static str = "application/octet-stream";

/// The name of the part of a batch request that holds the manifest.
pub const PAYLOAD_FIELD: &'static str = "payload";

/// The name of the parts of a batch request that hold attached files.
pub const FILES_FIELD: &'static str = "files";

/// What greets a client at the root.
pub const BANNER: &'static str = "Pocket Drive is running!";

/// A request that is refused as a whole.
#[derive(Debug, PartialEq, Eq)]
pub struct Rejection {
    pub status: u16,
    pub error: String,
}

/// The mathematical value of a [`Rejection`].
pub struct RejectionView {
    pub status: int,
    pub error: Seq<char>,
}

impl View for Rejection {
    type V = RejectionView;

    open spec fn view(&self) -> RejectionView {
        RejectionView { status: self.status as int, error: self.error@ }
    }
}

/// The declared name of an attached file that came without one.
pub open spec fn unnamed_upload() -> Seq<char> {
    "unknown"@
}

/// The key under which an attached file is stored.
pub open spec fn upload_key_of(filename: Option<Seq<char>>) -> Seq<char> {
    match filename {
        Some(name) => system_path(name),
        None => system_path(unnamed_upload()),
    }
}

/// Derives the key under which an attached file is stored from the name it
/// was declared with.
pub fn upload_key(filename: Option<&str>) -> (key: String)
    ensures
        key@ == upload_key_of(filename.deep_view()),
{
    match filename {
        Some(name) => generate_system_path(name),
        None => generate_system_path("unknown"),
    }
}

/// The words put before the cause of a failed upload.
pub open spec fn upload_failure_prefix() -> Seq<char> {
    "File upload failed: "@
}

/// Reports an attached file that the blob store did not take, under the key
/// it was meant for. The batch goes on regardless.
pub fn upload_failure(storage_key: &String, error: &GatewayError) -> (failure: FileFailure)
    ensures
        failure@ == (FileFailureView {
            file_path: storage_key@,
            kind: FailureKind::Storage,
            error: upload_failure_prefix() + error@.message,
        }),
{
    let mut text = String::from_str("File upload failed: ");
    text.append(error.message.as_str());
    FileFailure { file_path: storage_key.clone(), kind: FailureKind::Storage, error: text }
}

/// Opens a batch request: an engine for the manifest that the payload
/// holds, or the refusal of the whole request where it holds none. No
/// request to a store is made before the payload is found to be a manifest.
pub fn begin_sync(payload: Option<&str>) -> (opening: Result<Engine, Rejection>)
    ensures
        match opening {
            Ok(engine) => {
                &&& manifest_of_payload(payload.deep_view()) matches Ok(manifest)
                &&& engine@ == EngineView::start(manifest)
                &&& engine@.wf()
            },
            Err(rejection) => {
                &&& manifest_of_payload(payload.deep_view()) matches Err(defect)
                &&& rejection@ == (RejectionView {
                    status: STATUS_BAD_REQUEST as int,
                    error: description(defect),
                })
            },
        },
{
    match decode_manifest(payload) {
        Ok(manifest) => Ok(Engine::new(manifest)),
        Err(defect) => Err(Rejection { status: STATUS_BAD_REQUEST, error: defect.describe() }),
    }
}

/// The reply to a batch request.
#[derive(Debug, PartialEq, Eq)]
pub struct SyncReply {
    pub status: u16,
    pub body: SyncResponse,
}

/// Closes a batch request. The status says that the batch was processed:
/// failures of entries are told by the body alone.
pub fn finish_sync(engine: Engine) -> (reply: SyncReply)
    ensures
        reply.status == STATUS_ACCEPTED,
        reply.body@ == engine@.response,
{
    SyncReply { status: STATUS_ACCEPTED, body: engine.into_response() }
}

/// The reply to a request for every row: the rows, or the error.
#[derive(Debug, PartialEq, Eq)]
pub struct ListingReply {
    pub status: u16,
    pub data: Option<Vec<FileEntry>>,
    pub error: Option<String>,
}

/// The mathematical value of a [`ListingReply`].
pub struct ListingReplyView {
    pub status: int,
    pub data: Option<Seq<FileEntryView>>,
    pub error: Option<Seq<char>>,
}

impl View for ListingReply {
    type V = ListingReplyView;

    open spec fn view(&self) -> ListingReplyView {
        ListingReplyView {
            status: self.status as int,
            data: self.data.deep_view(),
            error: match self.error {
                Some(text) => Some(text@),
                None => None,
            },
        }
    }
}

/// The mathematical value of what the metadata store answers to a listing.
pub open spec fn rows_result_view(result: Result<Vec<FileEntry>, GatewayError>) -> Result<
    Seq<FileEntryView>,
    GatewayErrorView,
> {
    match result {
        Ok(rows) => Ok(rows.deep_view()),
        Err(error) => Err(error@),
    }
}

/// The reply that a listing of the metadata store is answered with.
pub open spec fn listing_reply_of(result: Result<Seq<FileEntryView>, GatewayErrorView>) -> ListingReplyView {
    match result {
        Ok(rows) => ListingReplyView { status: STATUS_OK as int, data: Some(rows), error: None },
        Err(error) => ListingReplyView {
            status: STATUS_SERVER_ERROR as int,
            data: None,
            error: Some(error.message),
        },
    }
}

/// Replies to a request for every row with what the metadata store answered.
pub fn listing_reply(result: Result<Vec<FileEntry>, GatewayError>) -> (reply: ListingReply)
    ensures
        reply@ == listing_reply_of(rows_result_view(result)),
{
    match result {
        Ok(rows) => ListingReply { status: STATUS_OK, data: Some(rows), error: None },
        Err(error) => ListingReply {
            status: STATUS_SERVER_ERROR,
            data: None,
            error: Some(error.message),
        },
    }
}

/// Calls `PresigningConfig::expires_in` of `aws-sdk-s3` on a duration of
/// `seconds` seconds. The contract claims when the call succeeds: for a
/// duration of one week at most. Of the configuration itself, which holds
/// the time of the call, it claims nothing.
#[verifier::external_body]
fn presigning_config(seconds: u64) -> (config: Result<PresigningConfig, PresigningConfigError>)
    ensures
        config is Ok <==> seconds <= LONGEST_LINK_SECONDS,
{
    PresigningConfig::expires_in(Duration::from_secs(seconds))
}

/// What is to be asked of the blob store for a link to read one object.
#[derive(Debug)]
pub struct LinkRequest {
    pub storage_key: String,
    pub expires_in_seconds: u64,
    pub config: PresigningConfig,
}

/// The refusal of a request for a link that names no object.
pub open spec fn missing_path() -> RejectionView {
    RejectionView { status: STATUS_BAD_REQUEST as int, error: "Missing path"@ }
}

/// The words put before the cause of a link that could not be issued.
pub open spec fn link_failure_prefix() -> Seq<char> {
    "Failed to generate URL: "@
}

/// The refusal of a request for a link that would be valid for too long.
pub open spec fn link_too_long() -> RejectionView {
    RejectionView {
        status: STATUS_SERVER_ERROR as int,
        error: link_failure_prefix() + "expiry is longer than one week"@,
    }
}

/// Reads a request for a link to the object under `storage_key`, valid for
/// `seconds` seconds. The object need not exist. The request is refused
/// where it names no key, and where the link would be valid for more than a
/// week.
pub fn link_request(storage_key: Option<&String>, seconds: u64) -> (request: Result<
    LinkRequest,
    Rejection,
>)
    ensures
        match request {
            Ok(asked) => {
                &&& storage_key matches Some(key)
                &&& seconds <= LONGEST_LINK_SECONDS
                &&& asked.storage_key@ == key@
                &&& asked.expires_in_seconds == seconds
            },
            Err(rejection) => {
                &&& storage_key is None || seconds > LONGEST_LINK_SECONDS
                &&& rejection@ == if storage_key is None {
                    missing_path()
                } else {
                    link_too_long()
                }
            },
        },
{
    match storage_key {
        None => Err(Rejection { status: STATUS_BAD_REQUEST, error: String::from_str("Missing path") }),
        Some(key) => match presigning_config(seconds) {
            Ok(config) => Ok(
                LinkRequest { storage_key: key.clone(), expires_in_seconds: seconds, config },
            ),
            Err(_) => {
                let mut text = String::from_str("Failed to generate URL: ");
                text.append("expiry is longer than one week");
                Err(Rejection { status: STATUS_SERVER_ERROR, error: text })
            },
        },
    }
}

/// A link to read one object.
#[derive(Debug, PartialEq, Eq)]
pub struct Link {
    pub status: u16,
    pub url: String,
    pub expires_in_seconds: u64,
}

/// Replies to a request for a link with what the blob store answered: the
/// link and its time of validity, or the error.
pub fn link_reply(expires_in_seconds: u64, result: Result<String, GatewayError>) -> (reply: Result<
    Link,
    Rejection,
>)
    ensures
        match reply {
            Ok(link) => {
                &&& result matches Ok(url)
                &&& link.status == STATUS_OK
                &&& link.url@ == url@
                &&& link.expires_in_seconds == expires_in_seconds
            },
            Err(rejection) => {
                &&& result matches Err(error)
                &&& rejection@ == (RejectionView {
                    status: STATUS_SERVER_ERROR as int,
                    error: link_failure_prefix() + error@.message,
                })
            },
        },
{
    match result {
        Ok(url) => Ok(Link { status: STATUS_OK, url, expires_in_seconds }),
        Err(error) => {
            let mut text = String::from_str("Failed to generate URL: ");
            text.append(error.message.as_str());
            Err(Rejection { status: STATUS_SERVER_ERROR, error: text })
        },
    }
}

} // verus!
