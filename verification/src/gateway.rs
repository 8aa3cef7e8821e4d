//! The vocabulary between the reconciliation engine and its two backends:
//! the requests the engine makes and the answers it takes.

use crate::entry::{FileEntry, FileEntryView};
use crate::report::FailureKind;
use vstd::prelude::*;

verus! {

/// A failure reported by a backend, with the cause in words.
#[derive(Debug, PartialEq, Eq)]
pub struct GatewayError {
    pub kind: FailureKind,
    pub message: String,
}

/// The mathematical value of a [`GatewayError`].
pub struct GatewayErrorView {
    pub kind: FailureKind,
    pub message: Seq<char>,
}

impl View for GatewayError {
    type V = GatewayErrorView;

    open spec fn view(&self) -> GatewayErrorView {
        GatewayErrorView { kind: self.kind, message: self.message@ }
    }
}

/// The kind of a failure of the metadata store: a conflict where a unique
/// constraint was violated, not found where a statement that must return a
/// row returned none, and transient in every other case (the store out of
/// reach, a timeout).
pub open spec fn database_failure_kind(unique_violation: bool, row_not_found: bool) -> FailureKind {
    if unique_violation {
        FailureKind::Conflict
    } else if row_not_found {
        FailureKind::NotFound
    } else {
        FailureKind::Transient
    }
}

impl GatewayError {
    /// A failure of the metadata store, classified by what the store says of it.
    pub fn of_database(unique_violation: bool, row_not_found: bool, message: String) -> (error:
        GatewayError)
        ensures
            error@ == (GatewayErrorView {
                kind: database_failure_kind(unique_violation, row_not_found),
                message: message@,
            }),
    {
        let kind = if unique_violation {
            FailureKind::Conflict
        } else if row_not_found {
            FailureKind::NotFound
        } else {
            FailureKind::Transient
        };
        GatewayError { kind, message }
    }

    /// A failure of the blob store.
    pub fn of_storage(message: String) -> (error: GatewayError)
        ensures
            error@ == (GatewayErrorView { kind: FailureKind::Storage, message: message@ }),
    {
        GatewayError { kind: FailureKind::Storage, message }
    }
}

/// What a successful removal from the blob store found.
#[derive(Clone, Copy, Debug, PartialEq, Eq, Structural)]
pub enum BlobRemoval {
    /// The object was there and is gone.
    Removed,
    /// There was no object under the key.
    Missing,
}

/// A request of the engine to one of the backends.
#[derive(Debug, PartialEq, Eq)]
pub enum Action {
    /// Add `entry` to the metadata store.
    InsertRow { entry: FileEntry },
    /// Set hash, size and modification time of the row with the path of
    /// `entry` to those of `entry`.
    UpdateRow { entry: FileEntry },
    /// Remove the row with this path from the metadata store and return the
    /// storage key it held.
    DeleteRow { file_path: String },
    /// Remove the object under this key from the blob store.
    DeleteBlob { storage_key: String },
    /// Nothing is left to do: the response is complete.
    Finish,
}

/// The mathematical value of an [`Action`].
pub enum ActionView {
    InsertRow { entry: FileEntryView },
    UpdateRow { entry: FileEntryView },
    DeleteRow { file_path: Seq<char> },
    DeleteBlob { storage_key: Seq<char> },
    Finish,
}

impl View for Action {
    type V = ActionView;

    open spec fn view(&self) -> ActionView {
        match self {
            Action::InsertRow { entry } => ActionView::InsertRow { entry: entry@ },
            Action::UpdateRow { entry } => ActionView::UpdateRow { entry: entry@ },
            Action::DeleteRow { file_path } => ActionView::DeleteRow { file_path: file_path@ },
            Action::DeleteBlob { storage_key } => ActionView::DeleteBlob {
                storage_key: storage_key@,
            },
            Action::Finish => ActionView::Finish,
        }
    }
}

/// The answer of a backend to a request of the engine.
#[derive(Debug, PartialEq, Eq)]
pub enum Event {
    /// The metadata store answered an insert, with the row as persisted.
    RowInserted(Result<FileEntry, GatewayError>),
    /// The metadata store answered an update, with the row as persisted.
    RowUpdated(Result<FileEntry, GatewayError>),
    /// The metadata store answered a delete, with the storage key of the
    /// removed row.
    RowDeleted(Result<String, GatewayError>),
    /// The blob store answered a delete.
    BlobDeleted(Result<BlobRemoval, GatewayError>),
}

/// The mathematical value of an [`Event`].
pub enum EventView {
    RowInserted(Result<FileEntryView, GatewayErrorView>),
    RowUpdated(Result<FileEntryView, GatewayErrorView>),
    RowDeleted(Result<Seq<char>, GatewayErrorView>),
    BlobDeleted(Result<BlobRemoval, GatewayErrorView>),
}

/// The mathematical value of what the metadata store answers to an insert
/// or an update.
pub open spec fn row_result_view(result: Result<FileEntry, GatewayError>) -> Result<
    FileEntryView,
    GatewayErrorView,
> {
    match result {
        Ok(entry) => Ok(entry@),
        Err(error) => Err(error@),
    }
}

/// The mathematical value of what the metadata store answers to a delete.
pub open spec fn key_result_view(result: Result<String, GatewayError>) -> Result<
    Seq<char>,
    GatewayErrorView,
> {
    match result {
        Ok(key) => Ok(key@),
        Err(error) => Err(error@),
    }
}

/// The mathematical value of what the blob store answers to a delete.
pub open spec fn removal_result_view(result: Result<BlobRemoval, GatewayError>) -> Result<
    BlobRemoval,
    GatewayErrorView,
> {
    match result {
        Ok(removal) => Ok(removal),
        Err(error) => Err(error@),
    }
}

impl View for Event {
    type V = EventView;

    open spec fn view(&self) -> EventView {
        match self {
            Event::RowInserted(result) => EventView::RowInserted(row_result_view(*result)),
            Event::RowUpdated(result) => EventView::RowUpdated(row_result_view(*result)),
            Event::RowDeleted(result) => EventView::RowDeleted(key_result_view(*result)),
            Event::BlobDeleted(result) => EventView::BlobDeleted(removal_result_view(*result)),
        }
    }
}

} // verus!
