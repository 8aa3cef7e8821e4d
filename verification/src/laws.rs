//! What holds of every reconciliation against stores that keep to their
//! contract, stated over the same functions as the contracts of
//! [`crate::reconcile`], [`crate::store`] and [`crate::manifest`].

use crate::blob::{
    distinct_keys, lemma_object_of_is_unique, object_of, put_blob, stored, unreachable_error,
    BlobObjectView, BlobStoreView,
};
use crate::engine::{gathered, listed};
use crate::entry::{operation_name, FileEntryView, Operation};
use crate::gateway::GatewayErrorView;
use crate::manifest::{
    manifest_of, manifest_of_payload, operation_named, parsed_sections, ManifestView, SectionView,
};
use crate::protocol::{blob_failure_prefix, delete_blob_outcome, not_found_text};
use crate::reconcile::{apply_entries, apply_entry, apply_operation, reconciled, Backends};
use crate::report::{
    FailureKind, FileFailureView, OperationResultView, OutcomeView, SyncResponseView,
};
use crate::store::{
    conflict_text, delete_row, distinct_paths, holds, insert_row, lemma_occurrences,
    lemma_row_of_is_unique, occurrences, refreshed, row_of, update_row,
};
use vstd::prelude::*;

verus! {

/// After an insert, whether it succeeded or met a conflict, the store lists
/// exactly one row with the path of the entry, and no two rows share a path.
pub proof fn law_insert_then_list(stores: Backends, entry: FileEntryView)
    requires
        distinct_paths(stores.rows),
    ensures
        occurrences(apply_entry(Operation::Insert, stores, entry).0.rows, entry.file_path) == 1,
        distinct_paths(apply_entry(Operation::Insert, stores, entry).0.rows),
        apply_entry(Operation::Insert, stores, entry).0.blobs == stores.blobs,
{
    let rows = stores.rows;
    let after = apply_entry(Operation::Insert, stores, entry).0.rows;
    if holds(rows, entry.file_path) {
        lemma_occurrences(rows, entry.file_path);
    } else {
        assert(after == rows.push(entry));
        assert(after[rows.len() as int].file_path == entry.file_path);
        assert(holds(after, entry.file_path));
        assert(distinct_paths(after)) by {
            assert forall|i: int, j: int| 0 <= i < j < after.len() implies (#[trigger] after[i]).file_path
                != (#[trigger] after[j]).file_path by {
                if j < rows.len() {
                    assert(rows[i].file_path != rows[j].file_path);
                } else {
                    assert(rows[i].file_path != entry.file_path);
                }
            }
        }
        lemma_occurrences(after, entry.file_path);
    }
}

/// An update or a delete of a path that the store does not hold fails as
/// not found and leaves both stores as they were.
pub proof fn law_missing_path_is_not_found(stores: Backends, entry: FileEntryView)
    requires
        !holds(stores.rows, entry.file_path),
    ensures
        apply_entry(Operation::Update, stores, entry) == (
            stores,
            OutcomeView::Failure(
                FileFailureView {
                    file_path: entry.file_path,
                    kind: FailureKind::NotFound,
                    error: not_found_text(),
                },
            ),
        ),
        apply_entry(Operation::Delete, stores, entry) == (
            stores,
            OutcomeView::Failure(
                FileFailureView {
                    file_path: entry.file_path,
                    kind: FailureKind::NotFound,
                    error: not_found_text(),
                },
            ),
        ),
{
}

/// The manifest that asks for these inserts and nothing else.
pub open spec fn inserts_only(entries: Seq<FileEntryView>) -> ManifestView {
    ManifestView { insert: Some(entries), update: None, delete: None }
}

/// Two inserts of one entry whose path the store does not hold yet: the
/// first succeeds, the second fails as a conflict, and the store lists the
/// path once.
pub proof fn law_second_insert_conflicts(stores: Backends, entry: FileEntryView)
    requires
        distinct_paths(stores.rows),
        !holds(stores.rows, entry.file_path),
    ensures
        reconciled(inserts_only(seq![entry, entry]), stores) == (
            Backends { rows: stores.rows.push(entry), ..stores },
            SyncResponseView {
                insert: Some(
                    OperationResultView {
                        success: seq![entry],
                        failure: seq![
                            FileFailureView {
                                file_path: entry.file_path,
                                kind: FailureKind::Conflict,
                                error: conflict_text(),
                            },
                        ],
                    },
                ),
                update: None,
                delete: None,
            },
        ),
        occurrences(stores.rows.push(entry), entry.file_path) == 1,
{
    let both = seq![entry, entry];
    let one = seq![entry];
    let none = Seq::<FileEntryView>::empty();
    assert(both.drop_last() =~= one);
    assert(one.drop_last() =~= none);
    let first = apply_entries(Operation::Insert, stores, one);
    assert(apply_entries(Operation::Insert, stores, none) == (stores, OperationResultView::empty()));
    assert(first.0 == Backends { rows: stores.rows.push(entry), ..stores });
    assert(first.1.success =~= seq![entry]);
    assert(first.1.failure =~= Seq::empty());
    let after = stores.rows.push(entry);
    assert(after[stores.rows.len() as int].file_path == entry.file_path);
    assert(holds(after, entry.file_path));
    let second = apply_entries(Operation::Insert, stores, both);
    assert(second.0 == first.0);
    assert(second.1.success =~= seq![entry]);
    assert(second.1.failure =~= seq![
        FileFailureView {
            file_path: entry.file_path,
            kind: FailureKind::Conflict,
            error: conflict_text(),
        },
    ]);
    law_insert_then_list(stores, entry);
}

/// A delete whose row exists while the blob store is out of reach: the row
/// is gone from the store, the objects are as they were, and the entry is
/// reported as a failure of the storage layer.
pub proof fn law_failed_blob_delete_loses_the_row(stores: Backends, entry: FileEntryView)
    requires
        distinct_paths(stores.rows),
        holds(stores.rows, entry.file_path),
        !stores.blobs.online,
    ensures
        ({
            let after = apply_entry(Operation::Delete, stores, entry);
            &&& after.0.rows == stores.rows.remove(row_of(stores.rows, entry.file_path))
            &&& !holds(after.0.rows, entry.file_path)
            &&& occurrences(after.0.rows, entry.file_path) == 0
            &&& after.0.blobs == stores.blobs
            &&& after.1 == OutcomeView::Failure(
                FileFailureView {
                    file_path: entry.file_path,
                    kind: FailureKind::Storage,
                    error: blob_failure_prefix() + unreachable_error().message,
                },
            )
        }),
{
    let rows = stores.rows;
    let i = row_of(rows, entry.file_path);
    let after = rows.remove(i);
    assert(!holds(after, entry.file_path)) by {
        if holds(after, entry.file_path) {
            let j = choose|j: int| 0 <= j < after.len() && (#[trigger] after[j]).file_path == entry.file_path;
            if j < i {
                assert(rows[j].file_path != rows[i].file_path);
            } else {
                assert(after[j] == rows[j + 1]);
                assert(rows[i].file_path != rows[j + 1].file_path);
            }
        }
    }
    lemma_occurrences(after, entry.file_path);
}

/// Whatever error the blob store answers with, the delete is reported as a
/// failure of the storage layer under the path of the entry.
pub proof fn law_blob_error_is_a_storage_failure(entry: FileEntryView, error: GatewayErrorView)
    ensures
        delete_blob_outcome(entry, Err(error)) == OutcomeView::Failure(
            FileFailureView {
                file_path: entry.file_path,
                kind: FailureKind::Storage,
                error: blob_failure_prefix() + error.message,
            },
        ),
{
}

/// An update of a path that the store holds succeeds, and the same update
/// once more succeeds with the same row and leaves both stores as the first
/// left them.
pub proof fn law_update_is_idempotent(stores: Backends, entry: FileEntryView)
    requires
        distinct_paths(stores.rows),
        holds(stores.rows, entry.file_path),
    ensures
        ({
            let once = apply_entry(Operation::Update, stores, entry);
            let twice = apply_entry(Operation::Update, once.0, entry);
            &&& once.1 == OutcomeView::Success(
                refreshed(stores.rows[row_of(stores.rows, entry.file_path)], entry),
            )
            &&& twice.1 == once.1
            &&& twice.0 == once.0
            &&& distinct_paths(once.0.rows)
        }),
{
    let rows = stores.rows;
    let i = row_of(rows, entry.file_path);
    let row = refreshed(rows[i], entry);
    let after = rows.update(i, row);
    assert(distinct_paths(after)) by {
        assert forall|a: int, b: int| 0 <= a < b < after.len() implies (#[trigger] after[a]).file_path
            != (#[trigger] after[b]).file_path by {
            assert(rows[a].file_path != rows[b].file_path);
        }
    }
    assert(after[i].file_path == entry.file_path);
    lemma_row_of_is_unique(after, i);
    assert(refreshed(after[i], entry) == row);
    assert(after.update(i, row) =~= after);
}

/// A key at the top level that names no operation makes the whole payload
/// malformed, whatever else it holds: no text that is read as these sections
/// is a manifest.
pub proof fn law_unknown_key_fails_decode(sections: Seq<SectionView>, place: int)
    requires
        0 <= place < sections.len(),
        operation_named(sections[place].kind) is None,
    ensures
        manifest_of(sections) is Err,
        forall|text: Seq<char>|
            #[trigger] parsed_sections(text) == Some(sections) ==> manifest_of_payload(Some(text)) is Err,
    decreases sections.len(),
{
    if place < sections.len() - 1 {
        law_unknown_key_fails_decode(sections.drop_last(), place);
    }
}

/// The names of the operations are distinct: each name is read back as the
/// operation it was written for.
pub proof fn law_operation_names_are_read_back(operation: Operation)
    ensures
        operation_named(operation_name(operation)) == Some(operation),
{
    reveal_strlit("insert");
    reveal_strlit("update");
    reveal_strlit("delete");
    assert("insert"@[0] != "update"@[0]);
    assert("insert"@[0] != "delete"@[0]);
    assert("update"@[0] != "delete"@[0]);
}

/// One operation gives every one of its entries exactly one outcome.
proof fn lemma_one_outcome_each(operation: Operation, stores: Backends, entries: Seq<FileEntryView>)
    ensures
        apply_entries(operation, stores, entries).1.count() == entries.len(),
    decreases entries.len(),
{
    if entries.len() > 0 {
        lemma_one_outcome_each(operation, stores, entries.drop_last());
    }
}

/// Every entry of a manifest has exactly one outcome, a success or a
/// failure, whatever became of the entries before it; an empty list has an
/// empty result, and an operation that the manifest does not mention has none.
pub proof fn law_every_entry_has_one_outcome(manifest: ManifestView, stores: Backends)
    ensures
        ({
            let response = reconciled(manifest, stores).1;
            &&& response.insert is Some <==> manifest.insert is Some
            &&& response.update is Some <==> manifest.update is Some
            &&& response.delete is Some <==> manifest.delete is Some
            &&& gathered(response.insert) == listed(manifest.insert)
            &&& gathered(response.update) == listed(manifest.update)
            &&& gathered(response.delete) == listed(manifest.delete)
        }),
{
    let inserts = apply_operation(Operation::Insert, stores, manifest.insert);
    let updates = apply_operation(Operation::Update, inserts.0, manifest.update);
    if manifest.insert is Some {
        lemma_one_outcome_each(Operation::Insert, stores, manifest.insert->0);
    }
    if manifest.update is Some {
        lemma_one_outcome_each(Operation::Update, inserts.0, manifest.update->0);
    }
    if manifest.delete is Some {
        lemma_one_outcome_each(Operation::Delete, updates.0, manifest.delete->0);
    }
}

/// One entry leaves the rows with distinct paths.
proof fn lemma_entry_keeps_paths_distinct(operation: Operation, stores: Backends, entry: FileEntryView)
    requires
        distinct_paths(stores.rows),
    ensures
        distinct_paths(apply_entry(operation, stores, entry).0.rows),
{
    let rows = stores.rows;
    let after = apply_entry(operation, stores, entry).0.rows;
    match operation {
        Operation::Insert => {
            law_insert_then_list(stores, entry);
        },
        Operation::Update => {
            if holds(rows, entry.file_path) {
                law_update_is_idempotent(stores, entry);
            }
        },
        Operation::Delete => {
            if holds(rows, entry.file_path) {
                let i = row_of(rows, entry.file_path);
                assert(after == rows.remove(i));
                assert forall|a: int, b: int| 0 <= a < b < after.len() implies (#[trigger] after[a]).file_path
                    != (#[trigger] after[b]).file_path by {
                    let a0 = if a < i { a } else { a + 1 };
                    let b0 = if b < i { b } else { b + 1 };
                    assert(after[a] == rows[a0]);
                    assert(after[b] == rows[b0]);
                    assert(rows[a0].file_path != rows[b0].file_path);
                }
            }
        },
    }
}

/// One operation leaves the rows with distinct paths.
proof fn lemma_entries_keep_paths_distinct(
    operation: Operation,
    stores: Backends,
    entries: Seq<FileEntryView>,
)
    requires
        distinct_paths(stores.rows),
    ensures
        distinct_paths(apply_entries(operation, stores, entries).0.rows),
    decreases entries.len(),
{
    if entries.len() > 0 {
        lemma_entries_keep_paths_distinct(operation, stores, entries.drop_last());
        lemma_entry_keeps_paths_distinct(
            operation,
            apply_entries(operation, stores, entries.drop_last()).0,
            entries.last(),
        );
    }
}

/// Whatever a batch asks for, the metadata store never comes to hold two
/// rows with the same path.
pub proof fn law_paths_stay_unique(manifest: ManifestView, stores: Backends)
    requires
        distinct_paths(stores.rows),
    ensures
        distinct_paths(reconciled(manifest, stores).0.rows),
{
    let inserts = apply_operation(Operation::Insert, stores, manifest.insert);
    let updates = apply_operation(Operation::Update, inserts.0, manifest.update);
    if manifest.insert is Some {
        lemma_entries_keep_paths_distinct(Operation::Insert, stores, manifest.insert->0);
    }
    if manifest.update is Some {
        lemma_entries_keep_paths_distinct(Operation::Update, inserts.0, manifest.update->0);
    }
    if manifest.delete is Some {
        lemma_entries_keep_paths_distinct(Operation::Delete, updates.0, manifest.delete->0);
    }
}

/// A path is held exactly if it was inserted with success and not deleted
/// with success since: a successful insert makes its path held, a successful
/// delete makes its path not held, and nothing else changes which paths are
/// held.
pub proof fn law_held_iff_inserted_and_not_deleted(
    rows: Seq<FileEntryView>,
    entry: FileEntryView,
    file_path: Seq<char>,
)
    requires
        distinct_paths(rows),
    ensures
        holds(insert_row(rows, entry).0, file_path) == (holds(rows, file_path) || (insert_row(
            rows,
            entry,
        ).1 is Ok && file_path == entry.file_path)),
        holds(update_row(rows, entry).0, file_path) == holds(rows, file_path),
        holds(delete_row(rows, entry.file_path).0, file_path) == (holds(rows, file_path) && !(
        delete_row(rows, entry.file_path).1 is Ok && file_path == entry.file_path)),
{
    let inserted = insert_row(rows, entry).0;
    let updated = update_row(rows, entry).0;
    let deleted = delete_row(rows, entry.file_path).0;
    if holds(rows, file_path) {
        let k = row_of(rows, file_path);
        assert(rows[k].file_path == file_path);
        assert(inserted[k].file_path == file_path);
        assert(updated[k].file_path == file_path);
        if holds(rows, entry.file_path) && file_path != entry.file_path {
            let i = row_of(rows, entry.file_path);
            let k0 = if k < i { k } else { k - 1 };
            assert(deleted[k0] == rows[k]);
            assert(deleted[k0].file_path == file_path);
        }
    }
    if holds(inserted, file_path) && !holds(rows, file_path) {
        let k = row_of(inserted, file_path);
        if k < rows.len() {
            assert(rows[k].file_path == file_path);
        }
    } else if !holds(rows, entry.file_path) && file_path == entry.file_path {
        assert(inserted[rows.len() as int].file_path == file_path);
    }
    if holds(updated, file_path) {
        let k = row_of(updated, file_path);
        assert(rows[k].file_path == file_path);
    }
    if holds(deleted, file_path) {
        let k = row_of(deleted, file_path);
        if holds(rows, entry.file_path) {
            let i = row_of(rows, entry.file_path);
            let k0 = if k < i { k } else { k + 1 };
            assert(deleted[k] == rows[k0]);
            assert(rows[k0].file_path == file_path);
            if file_path == entry.file_path {
                assert(k0 != i);
                if k0 < i {
                    assert(rows[k0].file_path != rows[i].file_path);
                } else {
                    assert(rows[i].file_path != rows[k0].file_path);
                }
            }
        } else {
            assert(rows[k].file_path == file_path);
        }
    }
}

/// Writing the same content under the same key once more changes nothing:
/// the key holds one object with that content either way.
pub proof fn law_put_is_idempotent(store: BlobStoreView, storage_key: Seq<char>, content: Seq<u8>)
    requires
        distinct_keys(store.objects),
        store.online,
    ensures
        ({
            let once = put_blob(store, storage_key, content);
            let twice = put_blob(once.0, storage_key, content);
            &&& once.1 is Ok
            &&& twice == once
            &&& stored(once.0.objects, storage_key)
            &&& distinct_keys(once.0.objects)
            &&& once.0.objects[object_of(once.0.objects, storage_key)].content == content
        }),
{
    let object = BlobObjectView { storage_key, content };
    let objects = store.objects;
    let after = put_blob(store, storage_key, content).0.objects;
    let place = if stored(objects, storage_key) {
        object_of(objects, storage_key)
    } else {
        objects.len() as int
    };
    assert(after[place] == object);
    assert(distinct_keys(after)) by {
        assert forall|a: int, b: int| 0 <= a < b < after.len() implies (#[trigger] after[a]).storage_key
            != (#[trigger] after[b]).storage_key by {
            if stored(objects, storage_key) {
                assert(objects[a].storage_key != objects[b].storage_key);
            } else if b < objects.len() {
                assert(objects[a].storage_key != objects[b].storage_key);
            } else {
                assert(objects[a].storage_key != storage_key);
            }
        }
    }
    lemma_object_of_is_unique(after, place);
    assert(after.update(place, object) =~= after);
}

} // verus!
