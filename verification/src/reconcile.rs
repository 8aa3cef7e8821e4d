//! A whole batch against the two stores in memory: what it leaves behind and
//! what it reports, and the proof that the engine, driven request by
//! request, arrives at exactly that.

use crate::blob::{delete_blob, BlobStore, BlobStoreView};
use crate::engine::{
    initial_result, lemma_engine_progress, listed, result_with, settle_delete, settle_insert,
    settle_update, Engine, EngineView, StageView,
};
use crate::entry::{FileEntryView, Operation};
use crate::gateway::{Action, ActionView, Event, EventView};
use crate::manifest::{Manifest, ManifestView};
use crate::protocol::{delete_blob_outcome, delete_row_outcome, row_outcome};
use crate::report::{OperationResultView, OutcomeView, SyncResponse, SyncResponseView};
use crate::store::{delete_row, insert_row, update_row, MetadataStore};
use vstd::prelude::*;

verus! {

/// The two stores together.
pub struct Backends {
    pub rows: Seq<FileEntryView>,
    pub blobs: BlobStoreView,
}

/// One entry of `operation` against the stores: what they hold afterwards
/// and what is reported. A delete removes the row first and the blob second,
/// and reports a failure of the second although the row is gone.
pub open spec fn apply_entry(operation: Operation, stores: Backends, entry: FileEntryView) -> (
    Backends,
    OutcomeView,
) {
    match operation {
        Operation::Insert => {
            let answer = insert_row(stores.rows, entry);
            (Backends { rows: answer.0, ..stores }, row_outcome(entry, answer.1))
        },
        Operation::Update => {
            let answer = update_row(stores.rows, entry);
            (Backends { rows: answer.0, ..stores }, row_outcome(entry, answer.1))
        },
        Operation::Delete => {
            let answer = delete_row(stores.rows, entry.file_path);
            match delete_row_outcome(entry, answer.1) {
                Some(outcome) => (Backends { rows: answer.0, ..stores }, outcome),
                None => {
                    let removal = delete_blob(stores.blobs, answer.1->Ok_0);
                    (
                        Backends { rows: answer.0, blobs: removal.0 },
                        delete_blob_outcome(entry, removal.1),
                    )
                },
            }
        },
    }
}

/// The entries of one operation, one after the other in the order of the list.
pub open spec fn apply_entries(operation: Operation, stores: Backends, entries: Seq<FileEntryView>) -> (
    Backends,
    OperationResultView,
)
    decreases entries.len(),
{
    if entries.len() == 0 {
        (stores, OperationResultView::empty())
    } else {
        let before = apply_entries(operation, stores, entries.drop_last());
        let last = apply_entry(operation, before.0, entries.last());
        (last.0, before.1.with(last.1))
    }
}

/// One operation of a manifest: no result where the manifest does not
/// mention it.
pub open spec fn apply_operation(
    operation: Operation,
    stores: Backends,
    entries: Option<Seq<FileEntryView>>,
) -> (Backends, Option<OperationResultView>) {
    match entries {
        Some(list) => {
            let all = apply_entries(operation, stores, list);
            (all.0, Some(all.1))
        },
        None => (stores, None),
    }
}

/// A whole manifest: the inserts, then the updates, then the deletes.
pub open spec fn reconciled(manifest: ManifestView, stores: Backends) -> (Backends, SyncResponseView) {
    let inserts = apply_operation(Operation::Insert, stores, manifest.insert);
    let updates = apply_operation(Operation::Update, inserts.0, manifest.update);
    let deletes = apply_operation(Operation::Delete, updates.0, manifest.delete);
    (deletes.0, SyncResponseView { insert: inserts.1, update: updates.1, delete: deletes.1 })
}

/// What performing a request does to the stores, and the answer it gives.
/// `None` for the request to finish, which asks nothing of the stores.
pub open spec fn performed(action: ActionView, stores: Backends) -> (Backends, Option<EventView>) {
    match action {
        ActionView::InsertRow { entry } => {
            let answer = insert_row(stores.rows, entry);
            (Backends { rows: answer.0, ..stores }, Some(EventView::RowInserted(answer.1)))
        },
        ActionView::UpdateRow { entry } => {
            let answer = update_row(stores.rows, entry);
            (Backends { rows: answer.0, ..stores }, Some(EventView::RowUpdated(answer.1)))
        },
        ActionView::DeleteRow { file_path } => {
            let answer = delete_row(stores.rows, file_path);
            (Backends { rows: answer.0, ..stores }, Some(EventView::RowDeleted(answer.1)))
        },
        ActionView::DeleteBlob { storage_key } => {
            let answer = delete_blob(stores.blobs, storage_key);
            (Backends { blobs: answer.0, ..stores }, Some(EventView::BlobDeleted(answer.1)))
        },
        ActionView::Finish => (stores, None),
    }
}

/// The first `count` entries of one operation.
pub open spec fn partly(
    operation: Operation,
    stores: Backends,
    entries: Option<Seq<FileEntryView>>,
    count: int,
) -> (Backends, Option<OperationResultView>) {
    match entries {
        Some(list) => apply_operation(operation, stores, Some(list.take(count))),
        None => (stores, None),
    }
}

/// The stores and the response when the first `count` entries of
/// `operation`, and every entry of the operations before it, are done.
pub open spec fn at(manifest: ManifestView, stores: Backends, operation: Operation, count: int) -> (
    Backends,
    SyncResponseView,
) {
    match operation {
        Operation::Insert => {
            let inserts = partly(Operation::Insert, stores, manifest.insert, count);
            (
                inserts.0,
                SyncResponseView {
                    insert: inserts.1,
                    update: initial_result(manifest.update),
                    delete: initial_result(manifest.delete),
                },
            )
        },
        Operation::Update => {
            let inserts = apply_operation(Operation::Insert, stores, manifest.insert);
            let updates = partly(Operation::Update, inserts.0, manifest.update, count);
            (
                updates.0,
                SyncResponseView {
                    insert: inserts.1,
                    update: updates.1,
                    delete: initial_result(manifest.delete),
                },
            )
        },
        Operation::Delete => {
            let inserts = apply_operation(Operation::Insert, stores, manifest.insert);
            let updates = apply_operation(Operation::Update, inserts.0, manifest.update);
            let deletes = partly(Operation::Delete, updates.0, manifest.delete, count);
            (deletes.0, SyncResponseView { insert: inserts.1, update: updates.1, delete: deletes.1 })
        },
    }
}

/// The stores and the response when the engine stands at `stage`.
pub open spec fn reached(manifest: ManifestView, stores: Backends, stage: StageView) -> (
    Backends,
    SyncResponseView,
) {
    match stage {
        StageView::Insert(i) => at(manifest, stores, Operation::Insert, i),
        StageView::Update(i) => at(manifest, stores, Operation::Update, i),
        StageView::DeleteRow(i) => at(manifest, stores, Operation::Delete, i),
        StageView::DeleteBlob(i, _) => {
            let before = at(manifest, stores, Operation::Delete, i);
            (
                Backends {
                    rows: delete_row(before.0.rows, manifest.delete->0[i].file_path).0,
                    ..before.0
                },
                before.1,
            )
        },
        StageView::Finished => reconciled(manifest, stores),
    }
}

/// Whether the storage key that the engine holds while it waits for the blob
/// store is the one that the removed row held.
pub open spec fn key_is_of_row(manifest: ManifestView, stores: Backends, stage: StageView) -> bool {
    stage matches StageView::DeleteBlob(i, key) ==> delete_row(
        at(manifest, stores, Operation::Delete, i).0.rows,
        manifest.delete->0[i].file_path,
    ).1 == Ok::<Seq<char>, crate::gateway::GatewayErrorView>(key)
}

/// No entries done: the stores as they were and an empty result.
proof fn lemma_partly_none(operation: Operation, stores: Backends, entries: Option<Seq<FileEntryView>>)
    ensures
        partly(operation, stores, entries, 0) == (stores, initial_result(entries)),
{
    if entries is Some {
        assert(entries->0.take(0) =~= Seq::<FileEntryView>::empty());
    }
}

/// All entries done: the operation as a whole.
proof fn lemma_partly_all(operation: Operation, stores: Backends, entries: Option<Seq<FileEntryView>>)
    ensures
        partly(operation, stores, entries, listed(entries)) == apply_operation(
            operation,
            stores,
            entries,
        ),
{
    if entries is Some {
        assert(entries->0.take(listed(entries)) =~= entries->0);
    }
}

/// One more entry done.
proof fn lemma_partly_next(
    operation: Operation,
    stores: Backends,
    entries: Option<Seq<FileEntryView>>,
    count: int,
)
    requires
        0 <= count < listed(entries),
    ensures
        ({
            let before = partly(operation, stores, entries, count);
            let next = apply_entry(operation, before.0, entries->0[count]);
            partly(operation, stores, entries, count + 1) == (next.0, result_with(before.1, next.1))
        }),
{
    let list = entries->0;
    assert(list.take(count + 1).drop_last() =~= list.take(count));
    assert(list.take(count + 1).last() == list[count]);
}

/// Where an operation is done, the next one begins; where the last is done,
/// the manifest is.
proof fn lemma_at_borders(manifest: ManifestView, stores: Backends)
    ensures
        at(manifest, stores, Operation::Insert, listed(manifest.insert)) == at(
            manifest,
            stores,
            Operation::Update,
            0,
        ),
        at(manifest, stores, Operation::Update, listed(manifest.update)) == at(
            manifest,
            stores,
            Operation::Delete,
            0,
        ),
        at(manifest, stores, Operation::Delete, listed(manifest.delete)) == reconciled(
            manifest,
            stores,
        ),
{
    let inserts = apply_operation(Operation::Insert, stores, manifest.insert);
    let updates = apply_operation(Operation::Update, inserts.0, manifest.update);
    lemma_partly_all(Operation::Insert, stores, manifest.insert);
    lemma_partly_all(Operation::Update, inserts.0, manifest.update);
    lemma_partly_all(Operation::Delete, updates.0, manifest.delete);
    lemma_partly_none(Operation::Update, inserts.0, manifest.update);
    lemma_partly_none(Operation::Delete, updates.0, manifest.delete);
}

/// Settling on the next entry that exists changes neither stores nor response.
proof fn lemma_reached_settled(manifest: ManifestView, stores: Backends)
    ensures
        forall|i: int|
            0 <= i <= listed(manifest.delete) ==> #[trigger] reached(
                manifest,
                stores,
                settle_delete(manifest, i),
            ) == at(manifest, stores, Operation::Delete, i),
        forall|i: int|
            0 <= i <= listed(manifest.update) ==> #[trigger] reached(
                manifest,
                stores,
                settle_update(manifest, i),
            ) == at(manifest, stores, Operation::Update, i),
        forall|i: int|
            0 <= i <= listed(manifest.insert) ==> #[trigger] reached(
                manifest,
                stores,
                settle_insert(manifest, i),
            ) == at(manifest, stores, Operation::Insert, i),
{
    lemma_at_borders(manifest, stores);
}

/// The engine keeps step with the stores: where stores and response are
/// those of the engine's stage, and the pending request is performed and
/// answered, they are those of the stage that follows.
pub proof fn lemma_engine_keeps_step(engine: EngineView, start: Backends, stores: Backends)
    requires
        engine.wf(),
        !(engine.stage is Finished),
        (stores, engine.response) == reached(engine.manifest, start, engine.stage),
        key_is_of_row(engine.manifest, start, engine.stage),
    ensures
        ({
            let step = performed(engine.action(), stores);
            let next = engine.after(step.1->0);
            &&& step.1 is Some
            &&& engine.expects(step.1->0)
            &&& (step.0, next.response) == reached(engine.manifest, start, next.stage)
            &&& key_is_of_row(engine.manifest, start, next.stage)
        }),
{
    let m = engine.manifest;
    let inserts = apply_operation(Operation::Insert, start, m.insert);
    let updates = apply_operation(Operation::Update, inserts.0, m.update);
    lemma_reached_settled(m, start);
    match engine.stage {
        StageView::Insert(i) => {
            lemma_partly_next(Operation::Insert, start, m.insert, i);
            assert(reached(m, start, settle_insert(m, i + 1)) == at(
                m,
                start,
                Operation::Insert,
                i + 1,
            ));
        },
        StageView::Update(i) => {
            lemma_partly_next(Operation::Update, inserts.0, m.update, i);
            assert(reached(m, start, settle_update(m, i + 1)) == at(
                m,
                start,
                Operation::Update,
                i + 1,
            ));
        },
        StageView::DeleteRow(i) => {
            lemma_partly_next(Operation::Delete, updates.0, m.delete, i);
            assert(reached(m, start, settle_delete(m, i + 1)) == at(
                m,
                start,
                Operation::Delete,
                i + 1,
            ));
        },
        StageView::DeleteBlob(i, key) => {
            lemma_partly_next(Operation::Delete, updates.0, m.delete, i);
            assert(reached(m, start, settle_delete(m, i + 1)) == at(
                m,
                start,
                Operation::Delete,
                i + 1,
            ));
        },
        StageView::Finished => {},
    }
}

/// At the start, stores and response are those of the engine's first stage.
pub proof fn lemma_engine_starts_in_step(manifest: ManifestView, start: Backends)
    ensures
        (start, EngineView::start(manifest).response) == reached(
            manifest,
            start,
            EngineView::start(manifest).stage,
        ),
        key_is_of_row(manifest, start, EngineView::start(manifest).stage),
{
    lemma_reached_settled(manifest, start);
    lemma_partly_none(Operation::Insert, start, manifest.insert);
    assert(reached(manifest, start, settle_insert(manifest, 0)) == at(
        manifest,
        start,
        Operation::Insert,
        0,
    ));
}

/// The two stores in memory, taken together.
pub open spec fn backends(store: &MetadataStore, blobs: &BlobStore) -> Backends {
    Backends { rows: store@, blobs: blobs@ }
}

/// Performs one request of the engine against the stores in memory and
/// returns their answer; `None` for the request to finish.
pub fn perform(action: Action, store: &mut MetadataStore, blobs: &mut BlobStore) -> (event: Option<
    Event,
>)
    requires
        old(store).wf(),
        old(blobs).wf(),
    ensures
        final(store).wf(),
        final(blobs).wf(),
        match event {
            Some(e) => (backends(final(store), final(blobs)), Some(e@)) == performed(
                action@,
                backends(old(store), old(blobs)),
            ),
            None => (backends(final(store), final(blobs)), None::<EventView>) == performed(
                action@,
                backends(old(store), old(blobs)),
            ),
        },
{
    match action {
        Action::InsertRow { entry } => Some(Event::RowInserted(store.insert(entry))),
        Action::UpdateRow { entry } => Some(Event::RowUpdated(store.update(&entry))),
        Action::DeleteRow { file_path } => Some(
            Event::RowDeleted(store.delete_returning_storage_key(&file_path)),
        ),
        Action::DeleteBlob { storage_key } => Some(Event::BlobDeleted(blobs.delete(&storage_key))),
        Action::Finish => None,
    }
}

/// Reconciles `manifest` against the stores in memory: every entry is
/// processed, whatever became of the entries before it, and the response
/// holds one outcome for each.
pub fn reconcile(manifest: Manifest, store: &mut MetadataStore, blobs: &mut BlobStore) -> (response:
    SyncResponse)
    requires
        old(store).wf(),
        old(blobs).wf(),
    ensures
        final(store).wf(),
        final(blobs).wf(),
        (backends(final(store), final(blobs)), response@) == reconciled(
            manifest@,
            backends(old(store), old(blobs)),
        ),
{
    let ghost start = backends(store, blobs);
    let mut engine = Engine::new(manifest);
    proof {
        lemma_engine_starts_in_step(manifest@, start);
    }
    while !engine.is_finished()
        invariant
            store.wf(),
            blobs.wf(),
            engine@.wf(),
            engine@.manifest == manifest@,
            (backends(store, blobs), engine@.response) == reached(manifest@, start, engine@.stage),
            key_is_of_row(manifest@, start, engine@.stage),
        decreases engine@.remaining(),
    {
        proof {
            lemma_engine_keeps_step(engine@, start, backends(store, blobs));
        }
        let ghost before = engine@;
        match perform(engine.action(), store, blobs) {
            Some(event) => {
                proof {
                    lemma_engine_progress(before, event@);
                }
                engine.step(event);
            },
            None => {},
        }
    }
    engine.into_response()
}

} // verus!
