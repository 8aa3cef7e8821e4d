//! File records, the storage keys derived for them, and the per-entry
//! results that a reconciliation reports.

use vstd::prelude::*;
use vstd::string::*;

verus! {

/// The prefix under which every object is kept in the blob store.
pub open spec fn storage_prefix() -> Seq<char> {
    seq!['d', 'a', 't', 'a', '/']
}

/// The storage key that belongs to a declared file name.
pub open spec fn system_path(filename: Seq<char>) -> Seq<char> {
    storage_prefix() + filename
}

/// Derives the blob-store key of a file from its declared name.
pub fn generate_system_path(filename: &str) -> (key: String)
    ensures
        key@ == system_path(filename@),
{
    let mut key = String::from_str("data/");
    proof {
        reveal_strlit("data/");
        assert("data/"@ =~= storage_prefix());
    }
    key.append(filename);
    key
}

/// The kinds of change a manifest can ask for.
#[derive(Clone, Copy, Debug, PartialEq, Eq, Structural)]
pub enum Operation {
    Insert,
    Update,
    Delete,
}

/// The name of an operation as a manifest and a response write it.
pub open spec fn operation_name(operation: Operation) -> Seq<char> {
    match operation {
        Operation::Insert => "insert"@,
        Operation::Update => "update"@,
        Operation::Delete => "delete"@,
    }
}

impl Operation {
    /// The name of the operation as a manifest and a response write it.
    pub fn name(&self) -> (name: &'static str)
        ensures
            name@ == operation_name(*self),
    {
        match self {
            Operation::Insert => "insert",
            Operation::Update => "update",
            Operation::Delete => "delete",
        }
    }
}

/// One file's metadata as the system knows it.
#[derive(Debug, PartialEq, Eq)]
pub struct FileEntry {
    /// Unique identifier of the file; never changes.
    pub file_path: String,
    /// Digest of the content as computed by the client, if known.
    pub file_hash: Option<String>,
    /// Length of the content in bytes.
    pub file_size: i64,
    /// Last modification time reported by the client, seconds since the epoch.
    pub modified_time: i64,
    /// Key of the content in the blob store.
    pub storage_key: String,
}

/// The mathematical value of a [`FileEntry`].
pub struct FileEntryView {
    pub file_path: Seq<char>,
    pub file_hash: Option<Seq<char>>,
    pub file_size: int,
    pub modified_time: int,
    pub storage_key: Seq<char>,
}

impl View for FileEntry {
    type V = FileEntryView;

    open spec fn view(&self) -> FileEntryView {
        FileEntryView {
            file_path: self.file_path@,
            file_hash: match self.file_hash {
                Some(h) => Some(h@),
                None => None,
            },
            file_size: self.file_size as int,
            modified_time: self.modified_time as int,
            storage_key: self.storage_key@,
        }
    }
}

impl DeepView for FileEntry {
    type V = FileEntryView;

    open spec fn deep_view(&self) -> FileEntryView {
        self@
    }
}

/// Copies an optional string.
pub(crate) fn clone_optional_string(value: &Option<String>) -> (copy: Option<String>)
    ensures
        copy == *value,
{
    match value {
        Some(s) => Some(s.clone()),
        None => None,
    }
}

impl Clone for FileEntry {
    fn clone(&self) -> (copy: FileEntry)
        ensures
            copy == *self,
    {
        FileEntry {
            file_path: self.file_path.clone(),
            file_hash: clone_optional_string(&self.file_hash),
            file_size: self.file_size,
            modified_time: self.modified_time,
            storage_key: self.storage_key.clone(),
        }
    }
}

} // verus!
