//! The metadata store as the engine understands it: rows keyed by path,
//! no two with the same path. [`MetadataStore`] keeps the rows in memory, in
//! the order in which they were inserted.

use crate::entry::{clone_optional_string, FileEntry, FileEntryView};
use crate::gateway::{key_result_view, row_result_view, GatewayError, GatewayErrorView};
use crate::protocol::not_found_text;
use crate::report::FailureKind;
use vstd::prelude::*;
use vstd::string::*;

verus! {

/// Whether some row has this path.
pub open spec fn holds(rows: Seq<FileEntryView>, file_path: Seq<char>) -> bool {
    exists|i: int| 0 <= i < rows.len() && (#[trigger] rows[i]).file_path == file_path
}

/// Whether no two rows have the same path.
pub open spec fn distinct_paths(rows: Seq<FileEntryView>) -> bool {
    forall|i: int, j: int|
        0 <= i < j < rows.len() ==> (#[trigger] rows[i]).file_path != (#[trigger] rows[j]).file_path
}

/// The place of a row with this path.
pub open spec fn row_of(rows: Seq<FileEntryView>, file_path: Seq<char>) -> int {
    choose|i: int| 0 <= i < rows.len() && (#[trigger] rows[i]).file_path == file_path
}

/// The number of rows with this path.
pub open spec fn occurrences(rows: Seq<FileEntryView>, file_path: Seq<char>) -> nat
    decreases rows.len(),
{
    if rows.len() == 0 {
        0
    } else {
        occurrences(rows.drop_last(), file_path) + if rows.last().file_path == file_path {
            1nat
        } else {
            0nat
        }
    }
}

/// The words of the error for a path that is already held.
pub open spec fn conflict_text() -> Seq<char> {
    "file path already exists"@
}

/// The error for a path that is already held.
pub open spec fn conflict_error() -> GatewayErrorView {
    GatewayErrorView { kind: FailureKind::Conflict, message: conflict_text() }
}

/// The error for a path that is not held.
pub open spec fn not_found_error() -> GatewayErrorView {
    GatewayErrorView { kind: FailureKind::NotFound, message: not_found_text() }
}

/// Insert: a new row after the others, persisted as given; a conflict, and
/// no change, where the path is already held.
pub open spec fn insert_row(rows: Seq<FileEntryView>, entry: FileEntryView) -> (
    Seq<FileEntryView>,
    Result<FileEntryView, GatewayErrorView>,
) {
    if holds(rows, entry.file_path) {
        (rows, Err(conflict_error()))
    } else {
        (rows.push(entry), Ok(entry))
    }
}

/// The row `row` with hash, size and modification time taken from `entry`.
pub open spec fn refreshed(row: FileEntryView, entry: FileEntryView) -> FileEntryView {
    FileEntryView {
        file_hash: entry.file_hash,
        file_size: entry.file_size,
        modified_time: entry.modified_time,
        ..row
    }
}

/// Update: the row with the path of `entry` takes its hash, size and
/// modification time and keeps its place and storage key; not found, and no
/// change, where the path is not held.
pub open spec fn update_row(rows: Seq<FileEntryView>, entry: FileEntryView) -> (
    Seq<FileEntryView>,
    Result<FileEntryView, GatewayErrorView>,
) {
    if holds(rows, entry.file_path) {
        let i = row_of(rows, entry.file_path);
        (rows.update(i, refreshed(rows[i], entry)), Ok(refreshed(rows[i], entry)))
    } else {
        (rows, Err(not_found_error()))
    }
}

/// Delete: the row with this path leaves and its storage key is returned;
/// not found, and no change, where the path is not held.
pub open spec fn delete_row(rows: Seq<FileEntryView>, file_path: Seq<char>) -> (
    Seq<FileEntryView>,
    Result<Seq<char>, GatewayErrorView>,
) {
    if holds(rows, file_path) {
        let i = row_of(rows, file_path);
        (rows.remove(i), Ok(rows[i].storage_key))
    } else {
        (rows, Err(not_found_error()))
    }
}

/// Among rows with distinct paths, a row with a given path is the one that
/// [`row_of`] names.
pub proof fn lemma_row_of_is_unique(rows: Seq<FileEntryView>, i: int)
    requires
        distinct_paths(rows),
        0 <= i < rows.len(),
    ensures
        holds(rows, rows[i].file_path),
        row_of(rows, rows[i].file_path) == i,
{
    let path = rows[i].file_path;
    let chosen = row_of(rows, path);
    assert(0 <= chosen < rows.len() && rows[chosen].file_path == path);
    if chosen < i {
        assert(rows[chosen].file_path != rows[i].file_path);
    } else if i < chosen {
        assert(rows[i].file_path != rows[chosen].file_path);
    }
}

/// A path is held as often as it occurs: not at all where it is not held,
/// and once where the paths are distinct and it is held.
pub proof fn lemma_occurrences(rows: Seq<FileEntryView>, file_path: Seq<char>)
    ensures
        !holds(rows, file_path) ==> occurrences(rows, file_path) == 0,
        holds(rows, file_path) ==> occurrences(rows, file_path) >= 1,
        holds(rows, file_path) && distinct_paths(rows) ==> occurrences(rows, file_path) == 1,
    decreases rows.len(),
{
    if rows.len() > 0 {
        let front = rows.drop_last();
        let last = rows.len() - 1;
        lemma_occurrences(front, file_path);
        assert forall|i: int| 0 <= i < front.len() implies front[i] == rows[i] by {}
        if holds(front, file_path) {
            let i = choose|i: int| 0 <= i < front.len() && (#[trigger] front[i]).file_path == file_path;
            assert(rows[i].file_path == file_path);
            if distinct_paths(rows) {
                assert(rows[i].file_path != rows[last].file_path);
                assert(distinct_paths(front)) by {
                    assert forall|a: int, b: int| 0 <= a < b < front.len() implies (
                    #[trigger] front[a]).file_path != (#[trigger] front[b]).file_path by {
                        assert(rows[a].file_path != rows[b].file_path);
                    }
                }
            }
        } else if holds(rows, file_path) {
            let i = choose|i: int| 0 <= i < rows.len() && (#[trigger] rows[i]).file_path == file_path;
            if i < last {
                assert(front[i].file_path == file_path);
            }
        } else {
            assert(rows[last].file_path != file_path);
        }
    }
}

/// A metadata store in memory.
#[derive(Debug)]
pub struct MetadataStore {
    rows: Vec<FileEntry>,
}

impl MetadataStore {
    /// The rows, in the order in which they were inserted.
    pub closed spec fn view(&self) -> Seq<FileEntryView> {
        self.rows.deep_view()
    }

    /// Validity: no two rows have the same path.
    pub open spec fn wf(&self) -> bool {
        distinct_paths(self@)
    }

    /// A store without rows.
    pub fn new() -> (store: MetadataStore)
        ensures
            store@ == Seq::<FileEntryView>::empty(),
            store.wf(),
    {
        let store = MetadataStore { rows: Vec::new() };
        assert(store.rows.deep_view() =~= Seq::empty());
        store
    }

    /// The place of the row with this path, if there is one.
    fn find(&self, file_path: &String) -> (found: Option<usize>)
        requires
            self.wf(),
        ensures
            found is Some == holds(self@, file_path@),
            found matches Some(i) ==> i < self.rows.len() && i == row_of(self@, file_path@),
    {
        let mut i: usize = 0;
        while i < self.rows.len()
            invariant
                i <= self.rows.len(),
                self.wf(),
                forall|j: int| 0 <= j < i ==> (#[trigger] self@[j]).file_path != file_path@,
            decreases self.rows.len() - i,
        {
            assert(self@[i as int] == self.rows@[i as int]@);
            if self.rows[i].file_path == *file_path {
                proof {
                    lemma_row_of_is_unique(self@, i as int);
                }
                return Some(i);
            }
            i += 1;
        }
        None
    }

    /// The number of rows.
    pub fn len(&self) -> (n: usize)
        ensures
            n == self@.len(),
    {
        self.rows.len()
    }

    /// Whether a row has this path.
    pub fn contains(&self, file_path: &String) -> (held: bool)
        requires
            self.wf(),
        ensures
            held == holds(self@, file_path@),
    {
        self.find(file_path).is_some()
    }

    /// Adds `entry` as a new row and returns it as persisted. Fails with a
    /// conflict, and changes nothing, where a row has its path already.
    pub fn insert(&mut self, entry: FileEntry) -> (result: Result<FileEntry, GatewayError>)
        requires
            old(self).wf(),
        ensures
            final(self).wf(),
            (final(self)@, row_result_view(result)) == insert_row(old(self)@, entry@),
    {
        match self.find(&entry.file_path) {
            Some(_) => Err(
                GatewayError {
                    kind: FailureKind::Conflict,
                    message: String::from_str("file path already exists"),
                },
            ),
            None => {
                let persisted = entry.clone();
                self.rows.push(entry);
                assert(self@ =~= old(self)@.push(entry@));
                Ok(persisted)
            },
        }
    }

    /// Sets hash, size and modification time of the row with the path of
    /// `entry` to those of `entry` and returns the row as persisted. Fails
    /// with not found, and changes nothing, where no row has that path.
    pub fn update(&mut self, entry: &FileEntry) -> (result: Result<FileEntry, GatewayError>)
        requires
            old(self).wf(),
        ensures
            final(self).wf(),
            (final(self)@, row_result_view(result)) == update_row(old(self)@, entry@),
    {
        match self.find(&entry.file_path) {
            Some(i) => {
                assert(self@[i as int] == self.rows@[i as int]@);
                let row = &self.rows[i];
                let persisted = FileEntry {
                    file_path: row.file_path.clone(),
                    file_hash: clone_optional_string(&entry.file_hash),
                    file_size: entry.file_size,
                    modified_time: entry.modified_time,
                    storage_key: row.storage_key.clone(),
                };
                self.rows.set(i, persisted.clone());
                assert(self@ =~= old(self)@.update(i as int, persisted@));
                Ok(persisted)
            },
            None => Err(
                GatewayError {
                    kind: FailureKind::NotFound,
                    message: String::from_str("file not found in DB"),
                },
            ),
        }
    }

    /// Removes the row with this path and returns the storage key it held.
    /// Fails with not found, and changes nothing, where no row has the path.
    pub fn delete_returning_storage_key(&mut self, file_path: &String) -> (result: Result<
        String,
        GatewayError,
    >)
        requires
            old(self).wf(),
        ensures
            final(self).wf(),
            (final(self)@, key_result_view(result)) == delete_row(old(self)@, file_path@),
    {
        match self.find(file_path) {
            Some(i) => {
                assert(self@[i as int] == self.rows@[i as int]@);
                let row = self.rows.remove(i);
                assert(self@ =~= old(self)@.remove(i as int));
                Ok(row.storage_key)
            },
            None => Err(
                GatewayError {
                    kind: FailureKind::NotFound,
                    message: String::from_str("file not found in DB"),
                },
            ),
        }
    }

    /// Every row, in the order in which they were inserted.
    pub fn list_all(&self) -> (rows: Vec<FileEntry>)
        ensures
            rows.deep_view() == self@,
    {
        let mut rows: Vec<FileEntry> = Vec::new();
        let mut i: usize = 0;
        while i < self.rows.len()
            invariant
                i <= self.rows.len(),
                rows.len() == i,
                forall|j: int| 0 <= j < i ==> (#[trigger] rows@[j])@ == self.rows@[j]@,
            decreases self.rows.len() - i,
        {
            rows.push(self.rows[i].clone());
            i += 1;
        }
        assert(rows.deep_view() =~= self@);
        rows
    }
}

} // verus!
