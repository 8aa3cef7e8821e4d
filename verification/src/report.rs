//! What a reconciliation reports: one outcome for every entry of the
//! manifest, gathered by operation.

use crate::entry::{FileEntry, FileEntryView};
use vstd::prelude::*;

verus! {

/// The ways in which one entry can fail.
#[derive(Clone, Copy, Debug, PartialEq, Eq, Structural)]
pub enum FailureKind {
    /// The path to insert is already in the metadata store.
    Conflict,
    /// The path to update or delete is not in the metadata store.
    NotFound,
    /// The metadata store could not be reached or did not answer in time.
    Transient,
    /// The blob store could not be reached or refused the operation.
    Storage,
}

/// An entry that failed: its path, the kind of failure and a readable reason.
#[derive(Debug, PartialEq, Eq)]
pub struct FileFailure {
    pub file_path: String,
    pub kind: FailureKind,
    pub error: String,
}

/// The mathematical value of a [`FileFailure`].
pub struct FileFailureView {
    pub file_path: Seq<char>,
    pub kind: FailureKind,
    pub error: Seq<char>,
}

impl View for FileFailure {
    type V = FileFailureView;

    open spec fn view(&self) -> FileFailureView {
        FileFailureView { file_path: self.file_path@, kind: self.kind, error: self.error@ }
    }
}

impl DeepView for FileFailure {
    type V = FileFailureView;

    open spec fn deep_view(&self) -> FileFailureView {
        self@
    }
}

/// What became of one entry.
#[derive(Debug, PartialEq, Eq)]
pub enum Outcome {
    /// The change took effect; the entry is reported as it now stands.
    Success(FileEntry),
    /// The change is reported as failed.
    Failure(FileFailure),
}

/// The mathematical value of an [`Outcome`].
pub enum OutcomeView {
    Success(FileEntryView),
    Failure(FileFailureView),
}

impl View for Outcome {
    type V = OutcomeView;

    open spec fn view(&self) -> OutcomeView {
        match self {
            Outcome::Success(entry) => OutcomeView::Success(entry@),
            Outcome::Failure(failure) => OutcomeView::Failure(failure@),
        }
    }
}

/// The outcomes of the entries of one operation, in the order of the entries.
#[derive(Debug, PartialEq, Eq)]
pub struct OperationResult {
    pub success: Vec<FileEntry>,
    pub failure: Vec<FileFailure>,
}

/// The mathematical value of an [`OperationResult`].
pub struct OperationResultView {
    pub success: Seq<FileEntryView>,
    pub failure: Seq<FileFailureView>,
}

impl OperationResultView {
    /// The result of an operation none of whose entries has an outcome yet.
    pub open spec fn empty() -> OperationResultView {
        OperationResultView { success: Seq::empty(), failure: Seq::empty() }
    }

    /// This result with one more outcome.
    pub open spec fn with(self, outcome: OutcomeView) -> OperationResultView {
        match outcome {
            OutcomeView::Success(entry) => OperationResultView {
                success: self.success.push(entry),
                ..self
            },
            OutcomeView::Failure(failure) => OperationResultView {
                failure: self.failure.push(failure),
                ..self
            },
        }
    }

    /// The number of entries that have an outcome.
    pub open spec fn count(self) -> nat {
        self.success.len() + self.failure.len()
    }
}

impl View for OperationResult {
    type V = OperationResultView;

    open spec fn view(&self) -> OperationResultView {
        OperationResultView {
            success: self.success.deep_view(),
            failure: self.failure.deep_view(),
        }
    }
}

impl DeepView for OperationResult {
    type V = OperationResultView;

    open spec fn deep_view(&self) -> OperationResultView {
        self@
    }
}

impl OperationResult {
    /// A result without outcomes.
    pub fn new() -> (result: OperationResult)
        ensures
            result@ == OperationResultView::empty(),
    {
        let result = OperationResult { success: Vec::new(), failure: Vec::new() };
        assert(result.success.deep_view() =~= Seq::empty());
        assert(result.failure.deep_view() =~= Seq::empty());
        result
    }

    /// Adds one outcome after those already held.
    pub fn record(&mut self, outcome: Outcome)
        ensures
            final(self)@ == old(self)@.with(outcome@),
    {
        match outcome {
            Outcome::Success(entry) => {
                self.success.push(entry);
                assert(self.success.deep_view() =~= old(self).success.deep_view().push(entry@));
            },
            Outcome::Failure(failure) => {
                self.failure.push(failure);
                assert(self.failure.deep_view() =~= old(self).failure.deep_view().push(failure@));
            },
        }
    }
}

/// The answer to a batch: a result for every operation that the manifest
/// mentions, and none for the others.
#[derive(Debug, PartialEq, Eq)]
pub struct SyncResponse {
    pub insert: Option<OperationResult>,
    pub update: Option<OperationResult>,
    pub delete: Option<OperationResult>,
}

/// The mathematical value of a [`SyncResponse`].
pub struct SyncResponseView {
    pub insert: Option<OperationResultView>,
    pub update: Option<OperationResultView>,
    pub delete: Option<OperationResultView>,
}

impl View for SyncResponse {
    type V = SyncResponseView;

    open spec fn view(&self) -> SyncResponseView {
        SyncResponseView {
            insert: self.insert.deep_view(),
            update: self.update.deep_view(),
            delete: self.delete.deep_view(),
        }
    }
}

} // verus!
