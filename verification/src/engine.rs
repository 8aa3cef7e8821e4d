//! The reconciliation engine: it decides, one request at a time, what is
//! asked of the metadata store and the blob store, and gathers what they
//! answer into the response.
//!
//! The engine performs no request itself. Its owner asks for the pending
//! [`Action`], performs it, and hands the answer back as an [`Event`]; the
//! engine records the outcome and moves on to the next entry. Inserts come
//! first, then updates, then deletes, each in the order of the manifest. No
//! answer, whatever it is, keeps a later entry from being processed.

use crate::entry::{FileEntry, FileEntryView};
use crate::gateway::{Action, ActionView, Event, EventView};
use crate::manifest::{Manifest, ManifestView};
use crate::protocol::{
    delete_blob_outcome, delete_row_outcome, record_deleted_blob, record_deleted_row, record_row,
    row_outcome,
};
use crate::report::{OperationResult, OperationResultView, Outcome, SyncResponse, SyncResponseView};
use vstd::prelude::*;

verus! {

/// Where the engine stands: the request it waits on.
#[derive(Debug, PartialEq, Eq)]
pub enum Stage {
    /// The insert of the entry at this place.
    Insert(usize),
    /// The update of the entry at this place.
    Update(usize),
    /// The removal of the row of the delete entry at this place.
    DeleteRow(usize),
    /// The removal of the blob of the delete entry at this place, whose row
    /// held this storage key.
    DeleteBlob(usize, String),
    /// Every entry has its outcome.
    Finished,
}

/// The mathematical value of a [`Stage`].
pub enum StageView {
    Insert(int),
    Update(int),
    DeleteRow(int),
    DeleteBlob(int, Seq<char>),
    Finished,
}

impl View for Stage {
    type V = StageView;

    open spec fn view(&self) -> StageView {
        match self {
            Stage::Insert(i) => StageView::Insert(*i as int),
            Stage::Update(i) => StageView::Update(*i as int),
            Stage::DeleteRow(i) => StageView::DeleteRow(*i as int),
            Stage::DeleteBlob(i, key) => StageView::DeleteBlob(*i as int, key@),
            Stage::Finished => StageView::Finished,
        }
    }
}

/// The number of entries listed under an operation: none where the manifest
/// does not mention it.
pub open spec fn listed(entries: Option<Seq<FileEntryView>>) -> int {
    match entries {
        Some(list) => list.len() as int,
        None => 0,
    }
}

/// The number of outcomes gathered for an operation.
pub open spec fn gathered(result: Option<OperationResultView>) -> int {
    match result {
        Some(r) => r.count() as int,
        None => 0,
    }
}

/// The result of an operation before any of its entries is processed: empty
/// where the manifest mentions the operation, absent where it does not.
pub open spec fn initial_result(entries: Option<Seq<FileEntryView>>) -> Option<OperationResultView> {
    match entries {
        Some(_) => Some(OperationResultView::empty()),
        None => None,
    }
}

/// A result with one more outcome.
pub open spec fn result_with(result: Option<OperationResultView>, outcome: crate::report::OutcomeView) -> Option<
    OperationResultView,
> {
    match result {
        Some(r) => Some(r.with(outcome)),
        None => None,
    }
}

/// The stage at or after the delete entry at `index`.
pub open spec fn settle_delete(manifest: ManifestView, index: int) -> StageView {
    if index < listed(manifest.delete) {
        StageView::DeleteRow(index)
    } else {
        StageView::Finished
    }
}

/// The stage at or after the update entry at `index`.
pub open spec fn settle_update(manifest: ManifestView, index: int) -> StageView {
    if index < listed(manifest.update) {
        StageView::Update(index)
    } else {
        settle_delete(manifest, 0)
    }
}

/// The stage at or after the insert entry at `index`.
pub open spec fn settle_insert(manifest: ManifestView, index: int) -> StageView {
    if index < listed(manifest.insert) {
        StageView::Insert(index)
    } else {
        settle_update(manifest, 0)
    }
}

/// The mathematical value of an [`Engine`].
pub struct EngineView {
    pub manifest: ManifestView,
    pub stage: StageView,
    pub response: SyncResponseView,
}

impl EngineView {
    /// The engine before the first request.
    pub open spec fn start(manifest: ManifestView) -> EngineView {
        EngineView {
            manifest,
            stage: settle_insert(manifest, 0),
            response: SyncResponseView {
                insert: initial_result(manifest.insert),
                update: initial_result(manifest.update),
                delete: initial_result(manifest.delete),
            },
        }
    }

    /// The numbers of insert, update and delete entries that have their
    /// outcome when the engine stands at `self.stage`.
    pub open spec fn done(self) -> (int, int, int) {
        let m = self.manifest;
        match self.stage {
            StageView::Insert(i) => (i, 0, 0),
            StageView::Update(i) => (listed(m.insert), i, 0),
            StageView::DeleteRow(i) => (listed(m.insert), listed(m.update), i),
            StageView::DeleteBlob(i, _) => (listed(m.insert), listed(m.update), i),
            StageView::Finished => (listed(m.insert), listed(m.update), listed(m.delete)),
        }
    }

    /// Validity: the stage points at an entry of the manifest, the response
    /// holds a result for exactly the operations the manifest mentions, and
    /// every entry before the stage has exactly one outcome.
    pub open spec fn wf(self) -> bool {
        let m = self.manifest;
        &&& match self.stage {
            StageView::Insert(i) => 0 <= i < listed(m.insert),
            StageView::Update(i) => 0 <= i < listed(m.update),
            StageView::DeleteRow(i) => 0 <= i < listed(m.delete),
            StageView::DeleteBlob(i, _) => 0 <= i < listed(m.delete),
            StageView::Finished => true,
        }
        &&& (self.response.insert is Some <==> m.insert is Some)
        &&& (self.response.update is Some <==> m.update is Some)
        &&& (self.response.delete is Some <==> m.delete is Some)
        &&& gathered(self.response.insert) == self.done().0
        &&& gathered(self.response.update) == self.done().1
        &&& gathered(self.response.delete) == self.done().2
    }

    /// The request the engine waits on.
    pub open spec fn action(self) -> ActionView {
        let m = self.manifest;
        match self.stage {
            StageView::Insert(i) => ActionView::InsertRow { entry: m.insert->0[i] },
            StageView::Update(i) => ActionView::UpdateRow { entry: m.update->0[i] },
            StageView::DeleteRow(i) => ActionView::DeleteRow { file_path: m.delete->0[i].file_path },
            StageView::DeleteBlob(_, key) => ActionView::DeleteBlob { storage_key: key },
            StageView::Finished => ActionView::Finish,
        }
    }

    /// Whether `event` answers the request the engine waits on.
    pub open spec fn expects(self, event: EventView) -> bool {
        match (self.stage, event) {
            (StageView::Insert(_), EventView::RowInserted(_)) => true,
            (StageView::Update(_), EventView::RowUpdated(_)) => true,
            (StageView::DeleteRow(_), EventView::RowDeleted(_)) => true,
            (StageView::DeleteBlob(_, _), EventView::BlobDeleted(_)) => true,
            _ => false,
        }
    }

    /// The engine after `event`. An event that does not answer the pending
    /// request changes nothing.
    pub open spec fn after(self, event: EventView) -> EngineView {
        let m = self.manifest;
        let r = self.response;
        match (self.stage, event) {
            (StageView::Insert(i), EventView::RowInserted(result)) => EngineView {
                manifest: m,
                stage: settle_insert(m, i + 1),
                response: SyncResponseView {
                    insert: result_with(r.insert, row_outcome(m.insert->0[i], result)),
                    ..r
                },
            },
            (StageView::Update(i), EventView::RowUpdated(result)) => EngineView {
                manifest: m,
                stage: settle_update(m, i + 1),
                response: SyncResponseView {
                    update: result_with(r.update, row_outcome(m.update->0[i], result)),
                    ..r
                },
            },
            (StageView::DeleteRow(i), EventView::RowDeleted(result)) => match delete_row_outcome(
                m.delete->0[i],
                result,
            ) {
                Some(outcome) => EngineView {
                    manifest: m,
                    stage: settle_delete(m, i + 1),
                    response: SyncResponseView { delete: result_with(r.delete, outcome), ..r },
                },
                None => EngineView {
                    manifest: m,
                    stage: StageView::DeleteBlob(i, result->Ok_0),
                    response: r,
                },
            },
            (StageView::DeleteBlob(i, _), EventView::BlobDeleted(result)) => EngineView {
                manifest: m,
                stage: settle_delete(m, i + 1),
                response: SyncResponseView {
                    delete: result_with(r.delete, delete_blob_outcome(m.delete->0[i], result)),
                    ..r
                },
            },
            _ => self,
        }
    }

    /// A bound on the number of requests still to be answered before the
    /// engine is finished: one for every insert and update entry, two for
    /// every delete entry.
    pub open spec fn remaining(self) -> int {
        let m = self.manifest;
        match self.stage {
            StageView::Insert(i) => (listed(m.insert) - i) + listed(m.update) + 2 * listed(
                m.delete,
            ),
            StageView::Update(i) => (listed(m.update) - i) + 2 * listed(m.delete),
            StageView::DeleteRow(i) => 2 * (listed(m.delete) - i),
            StageView::DeleteBlob(i, _) => 2 * (listed(m.delete) - i) - 1,
            StageView::Finished => 0,
        }
    }
}

/// A valid engine stays valid under every event, an event that answers the
/// pending request brings it nearer to the end, and a finished engine holds
/// exactly one outcome for every entry of the manifest.
pub proof fn lemma_engine_progress(engine: EngineView, event: EventView)
    requires
        engine.wf(),
    ensures
        engine.after(event).wf(),
        engine.after(event).manifest == engine.manifest,
        engine.remaining() >= 0,
        engine.remaining() == 0 <==> engine.stage is Finished,
        engine.expects(event) ==> engine.after(event).remaining() < engine.remaining(),
        !engine.expects(event) ==> engine.after(event) == engine,
        engine.stage is Finished ==> {
            &&& gathered(engine.response.insert) == listed(engine.manifest.insert)
            &&& gathered(engine.response.update) == listed(engine.manifest.update)
            &&& gathered(engine.response.delete) == listed(engine.manifest.delete)
        },
{
}

/// The state of one reconciliation.
#[derive(Debug)]
pub struct Engine {
    manifest: Manifest,
    stage: Stage,
    response: SyncResponse,
}

/// The number of entries listed under an operation.
fn length(entries: &Option<Vec<FileEntry>>) -> (n: usize)
    ensures
        n == listed(entries.deep_view()),
{
    match entries {
        Some(list) => list.len(),
        None => 0,
    }
}

/// A list in memory has no more entries than `usize` counts.
proof fn lemma_listed_fits(entries: &Option<Vec<FileEntry>>)
    ensures
        listed(entries.deep_view()) <= usize::MAX,
{
    match entries {
        Some(list) => {
            assert(list.deep_view().len() == list.len());
        },
        None => {},
    }
}

/// The entry at `index` of a list that holds it.
fn entry_at(entries: &Option<Vec<FileEntry>>, index: usize) -> (entry: &FileEntry)
    requires
        index < listed(entries.deep_view()),
    ensures
        entry@ == entries.deep_view()->0[index as int],
{
    let list = entries.as_ref().unwrap();
    &list[index]
}

fn settled_delete(manifest: &Manifest, index: usize) -> (stage: Stage)
    ensures
        stage@ == settle_delete(manifest@, index as int),
{
    if index < length(&manifest.delete) {
        Stage::DeleteRow(index)
    } else {
        Stage::Finished
    }
}

fn settled_update(manifest: &Manifest, index: usize) -> (stage: Stage)
    ensures
        stage@ == settle_update(manifest@, index as int),
{
    if index < length(&manifest.update) {
        Stage::Update(index)
    } else {
        settled_delete(manifest, 0)
    }
}

fn settled_insert(manifest: &Manifest, index: usize) -> (stage: Stage)
    ensures
        stage@ == settle_insert(manifest@, index as int),
{
    if index < length(&manifest.insert) {
        Stage::Insert(index)
    } else {
        settled_update(manifest, 0)
    }
}

fn initial(entries: &Option<Vec<FileEntry>>) -> (result: Option<OperationResult>)
    ensures
        result.deep_view() == initial_result(entries.deep_view()),
{
    match entries {
        Some(_) => Some(OperationResult::new()),
        None => None,
    }
}

/// Adds an outcome to the result of an operation that has one.
fn gather(result: &mut Option<OperationResult>, outcome: Outcome)
    ensures
        final(result).deep_view() == result_with(old(result).deep_view(), outcome@),
{
    match result {
        Some(r) => {
            r.record(outcome);
        },
        None => {},
    }
}

impl Engine {
    /// The mathematical value of the engine.
    pub closed spec fn view(&self) -> EngineView {
        EngineView { manifest: self.manifest@, stage: self.stage@, response: self.response@ }
    }

    /// Starts the reconciliation of `manifest`.
    pub fn new(manifest: Manifest) -> (engine: Engine)
        ensures
            engine@ == EngineView::start(manifest@),
            engine@.wf(),
    {
        let stage = settled_insert(&manifest, 0);
        let response = SyncResponse {
            insert: initial(&manifest.insert),
            update: initial(&manifest.update),
            delete: initial(&manifest.delete),
        };
        Engine { manifest, stage, response }
    }

    /// Whether every entry has its outcome.
    pub fn is_finished(&self) -> (finished: bool)
        ensures
            finished == (self@.stage is Finished),
    {
        match &self.stage {
            Stage::Finished => true,
            _ => false,
        }
    }

    /// The request the engine waits on.
    pub fn action(&self) -> (action: Action)
        requires
            self@.wf(),
        ensures
            action@ == self@.action(),
    {
        match &self.stage {
            Stage::Insert(i) => Action::InsertRow { entry: entry_at(&self.manifest.insert, *i).clone() },
            Stage::Update(i) => Action::UpdateRow { entry: entry_at(&self.manifest.update, *i).clone() },
            Stage::DeleteRow(i) => Action::DeleteRow {
                file_path: entry_at(&self.manifest.delete, *i).file_path.clone(),
            },
            Stage::DeleteBlob(_, key) => Action::DeleteBlob { storage_key: key.clone() },
            Stage::Finished => Action::Finish,
        }
    }

    /// Takes the answer to the pending request, records the outcome it
    /// decides and returns the next request. An event that does not answer
    /// the pending request is ignored, and the pending request is returned
    /// again.
    pub fn step(&mut self, event: Event) -> (action: Action)
        requires
            old(self)@.wf(),
        ensures
            final(self)@ == old(self)@.after(event@),
            final(self)@.wf(),
            final(self)@.remaining() >= 0,
            old(self)@.expects(event@) ==> final(self)@.remaining() < old(self)@.remaining(),
            action@ == final(self)@.action(),
    {
        proof {
            lemma_engine_progress(self@, event@);
            lemma_engine_progress(self@.after(event@), event@);
            lemma_listed_fits(&self.manifest.insert);
            lemma_listed_fits(&self.manifest.update);
            lemma_listed_fits(&self.manifest.delete);
        }
        let next = match (&self.stage, event) {
            (Stage::Insert(i), Event::RowInserted(result)) => {
                let outcome = record_row(entry_at(&self.manifest.insert, *i), result);
                gather(&mut self.response.insert, outcome);
                Some(settled_insert(&self.manifest, *i + 1))
            },
            (Stage::Update(i), Event::RowUpdated(result)) => {
                let outcome = record_row(entry_at(&self.manifest.update, *i), result);
                gather(&mut self.response.update, outcome);
                Some(settled_update(&self.manifest, *i + 1))
            },
            (Stage::DeleteRow(i), Event::RowDeleted(result)) => {
                match record_deleted_row(entry_at(&self.manifest.delete, *i), &result) {
                    Some(outcome) => {
                        gather(&mut self.response.delete, outcome);
                        Some(settled_delete(&self.manifest, *i + 1))
                    },
                    None => match result {
                        Ok(key) => Some(Stage::DeleteBlob(*i, key)),
                        Err(_) => None,
                    },
                }
            },
            (Stage::DeleteBlob(i, _), Event::BlobDeleted(result)) => {
                let outcome = record_deleted_blob(entry_at(&self.manifest.delete, *i), result);
                gather(&mut self.response.delete, outcome);
                Some(settled_delete(&self.manifest, *i + 1))
            },
            _ => None,
        };
        match next {
            Some(stage) => {
                self.stage = stage;
            },
            None => {},
        }
        self.action()
    }

    /// The response gathered so far; complete once the engine is finished.
    pub fn into_response(self) -> (response: SyncResponse)
        ensures
            response@ == self@.response,
    {
        self.response
    }
}

} // verus!
