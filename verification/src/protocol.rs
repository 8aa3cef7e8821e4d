//! The per-entry protocols: what the engine reports for one entry, given
//! what the backends answered.

use crate::entry::{FileEntry, FileEntryView};
use crate::gateway::{
    key_result_view, removal_result_view, row_result_view, BlobRemoval, GatewayError,
    GatewayErrorView,
};
use crate::report::{FailureKind, FileFailure, FileFailureView, Outcome, OutcomeView};
use vstd::prelude::*;
use vstd::string::*;

verus! {

/// The reason reported for a delete whose path the metadata store does not hold.
pub open spec fn not_found_text() -> Seq<char> {
    "file not found in DB"@
}

/// The words put before the cause of a failed removal from the blob store.
pub open spec fn blob_failure_prefix() -> Seq<char> {
    "File delete failed: "@
}

/// The failure reported for the entry at `file_path` when a backend answered
/// with `error`: the kind and the words of the error.
pub open spec fn failure_from(file_path: Seq<char>, error: GatewayErrorView) -> FileFailureView {
    FileFailureView { file_path, kind: error.kind, error: error.message }
}

/// Insert and update: the persisted row is the success; an error is a
/// failure under the path the client gave.
pub open spec fn row_outcome(
    entry: FileEntryView,
    result: Result<FileEntryView, GatewayErrorView>,
) -> OutcomeView {
    match result {
        Ok(persisted) => OutcomeView::Success(persisted),
        Err(error) => OutcomeView::Failure(failure_from(entry.file_path, error)),
    }
}

/// Delete, first half: what is reported when the metadata store did not
/// remove a row. `None` where it did: the blob is removed next.
pub open spec fn delete_row_outcome(
    entry: FileEntryView,
    result: Result<Seq<char>, GatewayErrorView>,
) -> Option<OutcomeView> {
    match result {
        Ok(_) => None,
        Err(error) => Some(
            OutcomeView::Failure(
                if error.kind == FailureKind::NotFound {
                    FileFailureView {
                        file_path: entry.file_path,
                        kind: FailureKind::NotFound,
                        error: not_found_text(),
                    }
                } else {
                    failure_from(entry.file_path, error)
                },
            ),
        ),
    }
}

/// Delete, second half: the entry as the client gave it is the success,
/// whether or not the blob store held an object; an error is a failure of
/// the storage layer, although the row is gone.
pub open spec fn delete_blob_outcome(
    entry: FileEntryView,
    result: Result<BlobRemoval, GatewayErrorView>,
) -> OutcomeView {
    match result {
        Ok(_) => OutcomeView::Success(entry),
        Err(error) => OutcomeView::Failure(
            FileFailureView {
                file_path: entry.file_path,
                kind: FailureKind::Storage,
                error: blob_failure_prefix() + error.message,
            },
        ),
    }
}

/// Reports a failure under `file_path` with the kind and the words of `error`.
pub fn failure_of(file_path: &String, error: GatewayError) -> (failure: FileFailure)
    ensures
        failure@ == failure_from(file_path@, error@),
{
    FileFailure { file_path: file_path.clone(), kind: error.kind, error: error.message }
}

/// Decides the outcome of an insert or an update of `entry`.
pub fn record_row(entry: &FileEntry, result: Result<FileEntry, GatewayError>) -> (outcome: Outcome)
    ensures
        outcome@ == row_outcome(entry@, row_result_view(result)),
{
    match result {
        Ok(persisted) => Outcome::Success(persisted),
        Err(error) => Outcome::Failure(failure_of(&entry.file_path, error)),
    }
}

/// Decides what a delete of `entry` reports once the metadata store has
/// answered: an outcome, or `None` where the blob is to be removed next.
pub fn record_deleted_row(entry: &FileEntry, result: &Result<String, GatewayError>) -> (outcome:
    Option<Outcome>)
    ensures
        outcome.is_some() == delete_row_outcome(entry@, key_result_view(*result)).is_some(),
        outcome matches Some(o) ==> Some(o@) == delete_row_outcome(
            entry@,
            key_result_view(*result),
        ),
{
    match result {
        Ok(_) => None,
        Err(error) => {
            let text = match error.kind {
                FailureKind::NotFound => String::from_str("file not found in DB"),
                _ => error.message.clone(),
            };
            Some(
                Outcome::Failure(
                    FileFailure { file_path: entry.file_path.clone(), kind: error.kind, error: text },
                ),
            )
        },
    }
}

/// Decides the outcome of a delete of `entry` once the blob store has answered.
pub fn record_deleted_blob(entry: &FileEntry, result: Result<BlobRemoval, GatewayError>) -> (outcome:
    Outcome)
    ensures
        outcome@ == delete_blob_outcome(entry@, removal_result_view(result)),
{
    match result {
        Ok(_) => Outcome::Success(entry.clone()),
        Err(error) => {
            let mut text = String::from_str("File delete failed: ");
            text.append(error.message.as_str());
            Outcome::Failure(
                FileFailure {
                    file_path: entry.file_path.clone(),
                    kind: FailureKind::Storage,
                    error: text,
                },
            )
        },
    }
}

} // verus!
