//! The batch manifest: what a client submits, and how its JSON form is read.
//!
//! A payload is a JSON object whose keys are operation names (`insert`,
//! `update`, `delete`, in lower case) and whose values are arrays of entry
//! objects. An entry object has the fields `file_path` (string), `file_hash`
//! (string or null, optional), `file_size` (integer, not negative),
//! `modified_time` (integer) and `file_name` (string or null, optional: the
//! declared file name, which defaults to the path). Entries under `delete`
//! need only `file_path`. Other fields of an entry are ignored; any other key
//! at the top level makes the whole payload malformed.

use crate::entry::{operation_name, system_path, FileEntry, FileEntryView, Operation};
use serde_json::Value;
use std::collections::BTreeMap;
use vstd::prelude::*;
use vstd::string::*;

verus! {

/// A leaf value of a parsed payload, as far as a manifest reads it.
#[derive(Debug, PartialEq, Eq)]
pub enum Scalar {
    /// JSON `null`.
    Null,
    /// A JSON string.
    Text(String),
    /// A JSON number that is an integer in the range of `i64`.
    Integer(i64),
    /// Anything else: a boolean, another number, an array or an object.
    Other,
}

/// The mathematical value of a [`Scalar`].
pub enum ScalarView {
    Null,
    Text(Seq<char>),
    Integer(int),
    Other,
}

impl DeepView for Scalar {
    type V = ScalarView;

    open spec fn deep_view(&self) -> ScalarView {
        match self {
            Scalar::Null => ScalarView::Null,
            Scalar::Text(t) => ScalarView::Text(t@),
            Scalar::Integer(n) => ScalarView::Integer(*n as int),
            Scalar::Other => ScalarView::Other,
        }
    }
}

/// One field of an entry object.
#[derive(Debug, PartialEq, Eq)]
pub struct RawField {
    pub name: String,
    pub value: Scalar,
}

/// The mathematical value of a [`RawField`].
pub struct FieldView {
    pub name: Seq<char>,
    pub value: ScalarView,
}

impl DeepView for RawField {
    type V = FieldView;

    open spec fn deep_view(&self) -> FieldView {
        FieldView { name: self.name@, value: self.value.deep_view() }
    }
}

/// One key of the payload with the entry objects listed under it.
#[derive(Debug, PartialEq, Eq)]
pub struct RawSection {
    pub kind: String,
    pub entries: Vec<Vec<RawField>>,
}

/// The mathematical value of a [`RawSection`].
pub struct SectionView {
    pub kind: Seq<char>,
    pub entries: Seq<Seq<FieldView>>,
}

impl DeepView for RawSection {
    type V = SectionView;

    open spec fn deep_view(&self) -> SectionView {
        SectionView { kind: self.kind@, entries: self.entries.deep_view() }
    }
}

/// Why a payload is not a manifest.
#[derive(Debug, PartialEq, Eq)]
pub enum MalformedManifest {
    /// The request carried no payload.
    Absent,
    /// The payload is not JSON, or not an object of arrays of objects.
    Unreadable,
    /// A key at the top level names no operation.
    UnknownOperation { key: String },
    /// The entry at `index` under `operation` lacks a required field or holds
    /// a field of the wrong kind.
    InvalidEntry { operation: Operation, index: usize },
}

/// The mathematical value of a [`MalformedManifest`].
pub enum MalformedView {
    Absent,
    Unreadable,
    UnknownOperation { key: Seq<char> },
    InvalidEntry { operation: Operation, index: int },
}

impl View for MalformedManifest {
    type V = MalformedView;

    open spec fn view(&self) -> MalformedView {
        match self {
            MalformedManifest::Absent => MalformedView::Absent,
            MalformedManifest::Unreadable => MalformedView::Unreadable,
            MalformedManifest::UnknownOperation { key } => MalformedView::UnknownOperation {
                key: key@,
            },
            MalformedManifest::InvalidEntry { operation, index } => MalformedView::InvalidEntry {
                operation: *operation,
                index: *index as int,
            },
        }
    }
}

/// What is wrong with a payload, in words.
pub open spec fn description(defect: MalformedView) -> Seq<char> {
    match defect {
        MalformedView::Absent => "Missing payload"@,
        MalformedView::Unreadable => "Malformed manifest: not a JSON object of entry lists"@,
        MalformedView::UnknownOperation { key } => "Malformed manifest: unknown operation "@ + key,
        MalformedView::InvalidEntry { operation, index } => "Malformed manifest: invalid entry under "@
            + operation_name(operation),
    }
}

impl MalformedManifest {
    /// What is wrong with the payload, in words.
    pub fn describe(&self) -> (text: String)
        ensures
            text@ == description(self@),
    {
        match self {
            MalformedManifest::Absent => String::from_str("Missing payload"),
            MalformedManifest::Unreadable => String::from_str(
                "Malformed manifest: not a JSON object of entry lists",
            ),
            MalformedManifest::UnknownOperation { key } => {
                let mut text = String::from_str("Malformed manifest: unknown operation ");
                text.append(key.as_str());
                text
            },
            MalformedManifest::InvalidEntry { operation, index } => {
                let mut text = String::from_str("Malformed manifest: invalid entry under ");
                text.append(operation.name());
                text
            },
        }
    }
}

/// A batch of requested changes. An operation that the payload does not
/// mention is `None`; one that it mentions with no entries is an empty list.
#[derive(Debug, PartialEq, Eq)]
pub struct Manifest {
    pub insert: Option<Vec<FileEntry>>,
    pub update: Option<Vec<FileEntry>>,
    pub delete: Option<Vec<FileEntry>>,
}

/// The mathematical value of a [`Manifest`].
pub struct ManifestView {
    pub insert: Option<Seq<FileEntryView>>,
    pub update: Option<Seq<FileEntryView>>,
    pub delete: Option<Seq<FileEntryView>>,
}

impl ManifestView {
    /// The manifest that mentions no operation.
    pub open spec fn empty() -> ManifestView {
        ManifestView { insert: None, update: None, delete: None }
    }

    /// This manifest with `entries` listed under `operation`.
    pub open spec fn with(self, operation: Operation, entries: Seq<FileEntryView>) -> ManifestView {
        match operation {
            Operation::Insert => ManifestView { insert: Some(entries), ..self },
            Operation::Update => ManifestView { update: Some(entries), ..self },
            Operation::Delete => ManifestView { delete: Some(entries), ..self },
        }
    }
}

impl View for Manifest {
    type V = ManifestView;

    open spec fn view(&self) -> ManifestView {
        ManifestView {
            insert: self.insert.deep_view(),
            update: self.update.deep_view(),
            delete: self.delete.deep_view(),
        }
    }
}

/// The operation that a top-level key names.
pub open spec fn operation_named(key: Seq<char>) -> Option<Operation> {
    if key == "insert"@ {
        Some(Operation::Insert)
    } else if key == "update"@ {
        Some(Operation::Update)
    } else if key == "delete"@ {
        Some(Operation::Delete)
    } else {
        None
    }
}

/// The value of the first field called `name`, if there is one.
pub open spec fn field_value(fields: Seq<FieldView>, name: Seq<char>) -> Option<ScalarView>
    decreases fields.len(),
{
    if fields.len() == 0 {
        None
    } else if fields[0].name == name {
        Some(fields[0].value)
    } else {
        field_value(fields.skip(1), name)
    }
}

/// How a field that must hold a string is read: `None` where it does not.
pub open spec fn required_text(value: Option<ScalarView>) -> Option<Seq<char>> {
    match value {
        Some(ScalarView::Text(t)) => Some(t),
        _ => None,
    }
}

/// How a field that may hold a string is read: `Some(None)` where it is
/// missing or null, `None` where it holds anything but a string.
pub open spec fn optional_text(value: Option<ScalarView>) -> Option<Option<Seq<char>>> {
    match value {
        None => Some(None),
        Some(ScalarView::Null) => Some(None),
        Some(ScalarView::Text(t)) => Some(Some(t)),
        _ => None,
    }
}

/// How a field that holds an integer of at least `least` is read. A missing
/// field counts as zero where `may_be_absent` holds.
pub open spec fn integer_field(value: Option<ScalarView>, least: int, may_be_absent: bool) -> Option<int> {
    match value {
        None => if may_be_absent { Some(0) } else { None },
        Some(ScalarView::Integer(n)) => if n >= least { Some(n) } else { None },
        _ => None,
    }
}

/// The entry that an entry object stands for under `operation`, or `None`
/// where the object is not a valid entry.
pub open spec fn entry_of(operation: Operation, fields: Seq<FieldView>) -> Option<FileEntryView> {
    let partial = operation == Operation::Delete;
    let path = required_text(field_value(fields, "file_path"@));
    let hash = optional_text(field_value(fields, "file_hash"@));
    let size = integer_field(field_value(fields, "file_size"@), 0, partial);
    let time = integer_field(field_value(fields, "modified_time"@), i64::MIN as int, partial);
    let name = optional_text(field_value(fields, "file_name"@));
    if path is Some && hash is Some && size is Some && time is Some && name is Some {
        Some(
            FileEntryView {
                file_path: path->0,
                file_hash: hash->0,
                file_size: size->0,
                modified_time: time->0,
                storage_key: system_path(
                    match name->0 {
                        Some(n) => n,
                        None => path->0,
                    },
                ),
            },
        )
    } else {
        None
    }
}

/// Whether every one of `entries` is a valid entry under `operation`.
pub open spec fn all_entries_valid(operation: Operation, entries: Seq<Seq<FieldView>>) -> bool {
    forall|i: int| 0 <= i < entries.len() ==> (#[trigger] entry_of(operation, entries[i])) is Some
}

/// Whether `index` is the place of the first of `entries` that is not a valid
/// entry under `operation`.
pub open spec fn is_first_invalid(operation: Operation, entries: Seq<Seq<FieldView>>, index: int) -> bool {
    &&& 0 <= index < entries.len()
    &&& entry_of(operation, entries[index]) is None
    &&& forall|j: int| 0 <= j < index ==> (#[trigger] entry_of(operation, entries[j])) is Some
}

/// The entries that a list of entry objects stands for under `operation`,
/// or the place of the first object that is not a valid entry.
pub open spec fn entries_of(operation: Operation, entries: Seq<Seq<FieldView>>) -> Result<Seq<FileEntryView>, int> {
    if all_entries_valid(operation, entries) {
        Ok(Seq::new(entries.len(), |i: int| entry_of(operation, entries[i])->0))
    } else {
        Err(choose|index: int| is_first_invalid(operation, entries, index))
    }
}

/// The manifest that a list of sections stands for. Sections are read in
/// order: the first defect decides the error, and a later section replaces
/// an earlier one of the same operation.
pub open spec fn manifest_of(sections: Seq<SectionView>) -> Result<ManifestView, MalformedView>
    decreases sections.len(),
{
    if sections.len() == 0 {
        Ok(ManifestView::empty())
    } else {
        let section = sections.last();
        match manifest_of(sections.drop_last()) {
            Err(e) => Err(e),
            Ok(manifest) => match operation_named(section.kind) {
                None => Err(MalformedView::UnknownOperation { key: section.kind }),
                Some(operation) => match entries_of(operation, section.entries) {
                    Err(index) => Err(MalformedView::InvalidEntry { operation, index }),
                    Ok(entries) => Ok(manifest.with(operation, entries)),
                },
            },
        }
    }
}

/// The manifest that a payload stands for.
pub open spec fn manifest_of_payload(payload: Option<Seq<char>>) -> Result<ManifestView, MalformedView> {
    match payload {
        None => Err(MalformedView::Absent),
        Some(text) => match parsed_sections(text) {
            None => Err(MalformedView::Unreadable),
            Some(sections) => manifest_of(sections),
        },
    }
}

/// What `serde_json` makes of a text read as an object of arrays of objects:
/// the sections in the order of their keys, each entry's fields in the order
/// of their names, or `None` where the text is not of that form.
pub uninterp spec fn parsed_sections(text: Seq<char>) -> Option<Seq<SectionView>>;

/// Calls `serde_json::from_str` to read `text` as a map from strings to
/// arrays of maps from strings to JSON values, and hands the maps out as
/// lists. The contract claims only that the outcome is a function of the
/// text, which it calls [`parsed_sections`].
#[verifier::external_body]
fn parse_sections(text: &str) -> (sections: Option<Vec<RawSection>>)
    ensures
        sections.deep_view() == parsed_sections(text@),
{
    let parsed: BTreeMap<String, Vec<BTreeMap<String, Value>>> = serde_json::from_str(text).ok()?;
    Some(parsed.into_iter().map(|(kind, entries)| RawSection {
        kind,
        entries: entries.into_iter().map(|fields| fields.into_iter().map(|(name, value)| RawField {
            name,
            value: match value {
                Value::Null => Scalar::Null,
                Value::String(text) => Scalar::Text(text),
                Value::Number(number) => number.as_i64().map_or(Scalar::Other, Scalar::Integer),
                Value::Bool(_) | Value::Array(_) | Value::Object(_) => Scalar::Other,
            },
        }).collect()).collect(),
    }).collect())
}

/// Whether a string reads as `literal`.
fn text_is(text: &String, literal: &str) -> (same: bool)
    ensures
        same == (text@ == literal@),
{
    let other = String::from_str(literal);
    *text == other
}

/// Reads a top-level key as an operation.
pub fn operation_from_key(key: &String) -> (operation: Option<Operation>)
    ensures
        operation == operation_named(key@),
{
    if text_is(key, "insert") {
        Some(Operation::Insert)
    } else if text_is(key, "update") {
        Some(Operation::Update)
    } else if text_is(key, "delete") {
        Some(Operation::Delete)
    } else {
        None
    }
}

/// Finds the first field called `name`.
fn find_field<'a>(fields: &'a Vec<RawField>, name: &str) -> (found: Option<&'a Scalar>)
    ensures
        found.deep_view() == field_value(fields.deep_view(), name@),
{
    let mut i: usize = 0;
    assert(fields.deep_view().skip(0) =~= fields.deep_view());
    while i < fields.len()
        invariant
            i <= fields.len(),
            field_value(fields.deep_view(), name@) == field_value(
                fields.deep_view().skip(i as int),
                name@,
            ),
        decreases fields.len() - i,
    {
        let ghost rest = fields.deep_view().skip(i as int);
        assert(rest[0] == fields@[i as int].deep_view());
        assert(rest.skip(1) =~= fields.deep_view().skip(i + 1));
        if text_is(&fields[i].name, name) {
            return Some(&fields[i].value);
        }
        i += 1;
    }
    None
}

fn read_required_text(value: Option<&Scalar>) -> (text: Option<String>)
    ensures
        text.deep_view() == required_text(value.deep_view()),
{
    match value {
        Some(Scalar::Text(t)) => Some(t.clone()),
        _ => None,
    }
}

fn read_optional_text(value: Option<&Scalar>) -> (text: Option<Option<String>>)
    ensures
        text.deep_view() == optional_text(value.deep_view()),
{
    match value {
        None => Some(None),
        Some(Scalar::Null) => Some(None),
        Some(Scalar::Text(t)) => Some(Some(t.clone())),
        _ => None,
    }
}

fn read_integer(value: Option<&Scalar>, least: i64, may_be_absent: bool) -> (number: Option<i64>)
    ensures
        match number {
            Some(n) => integer_field(value.deep_view(), least as int, may_be_absent) == Some(n as int),
            None => integer_field(value.deep_view(), least as int, may_be_absent) is None,
        },
{
    match value {
        None => if may_be_absent {
            Some(0)
        } else {
            None
        },
        Some(Scalar::Integer(n)) => if *n >= least {
            Some(*n)
        } else {
            None
        },
        _ => None,
    }
}

/// Reads one entry object under `operation`.
pub fn entry_from_fields(operation: Operation, fields: &Vec<RawField>) -> (entry: Option<FileEntry>)
    ensures
        entry.deep_view() == entry_of(operation, fields.deep_view()),
{
    let partial = match operation {
        Operation::Delete => true,
        _ => false,
    };
    let path = read_required_text(find_field(fields, "file_path"));
    let hash = read_optional_text(find_field(fields, "file_hash"));
    let size = read_integer(find_field(fields, "file_size"), 0, partial);
    let time = read_integer(find_field(fields, "modified_time"), i64::MIN, partial);
    let name = read_optional_text(find_field(fields, "file_name"));
    match (path, hash, size, time, name) {
        (Some(file_path), Some(file_hash), Some(file_size), Some(modified_time), Some(name)) => {
            let storage_key = match name {
                Some(n) => crate::entry::generate_system_path(n.as_str()),
                None => crate::entry::generate_system_path(file_path.as_str()),
            };
            Some(FileEntry { file_path, file_hash, file_size, modified_time, storage_key })
        },
        _ => None,
    }
}

/// Reads the entry objects listed under `operation`: all of them, or the
/// place of the first that is not a valid entry.
pub fn entries_from_objects(operation: Operation, objects: &Vec<Vec<RawField>>) -> (entries: Result<
    Vec<FileEntry>,
    usize,
>)
    ensures
        match entries {
            Ok(list) => entries_of(operation, objects.deep_view()) == Ok::<Seq<FileEntryView>, int>(
                list.deep_view(),
            ),
            Err(index) => entries_of(operation, objects.deep_view()) == Err::<
                Seq<FileEntryView>,
                int,
            >(index as int),
        },
{
    let ghost all = objects.deep_view();
    let mut list: Vec<FileEntry> = Vec::new();
    let mut i: usize = 0;
    while i < objects.len()
        invariant
            i <= objects.len(),
            all == objects.deep_view(),
            list.len() == i,
            forall|j: int| 0 <= j < i ==> (#[trigger] entry_of(operation, all[j])) is Some,
            forall|j: int|
                0 <= j < i ==> (#[trigger] list@[j])@ == entry_of(operation, all[j])->0,
        decreases objects.len() - i,
    {
        assert(all[i as int] == objects@[i as int].deep_view());
        match entry_from_fields(operation, &objects[i]) {
            Some(entry) => {
                list.push(entry);
            },
            None => {
                proof {
                    let here = i as int;
                    assert(is_first_invalid(operation, all, here));
                    let chosen = choose|index: int| is_first_invalid(operation, all, index);
                    assert(is_first_invalid(operation, all, chosen));
                    assert(chosen == here) by {
                        if chosen < here {
                            assert(entry_of(operation, all[chosen]) is Some);
                        } else if here < chosen {
                            assert(entry_of(operation, all[here]) is Some);
                        }
                    }
                }
                return Err(i);
            },
        }
        i += 1;
    }
    proof {
        assert(all_entries_valid(operation, all));
        assert(list.deep_view() =~= Seq::new(
            all.len(),
            |k: int| entry_of(operation, all[k])->0,
        ));
    }
    Ok(list)
}

/// Assembles a manifest from the sections of a payload.
pub fn manifest_from_sections(sections: &Vec<RawSection>) -> (manifest: Result<
    Manifest,
    MalformedManifest,
>)
    ensures
        match manifest {
            Ok(m) => manifest_of(sections.deep_view()) == Ok::<ManifestView, MalformedView>(m@),
            Err(e) => manifest_of(sections.deep_view()) == Err::<ManifestView, MalformedView>(e@),
        },
{
    let ghost all = sections.deep_view();
    let mut manifest = Manifest { insert: None, update: None, delete: None };
    let mut i: usize = 0;
    assert(all.take(0) =~= Seq::<SectionView>::empty());
    while i < sections.len()
        invariant
            i <= sections.len(),
            all == sections.deep_view(),
            manifest_of(all.take(i as int)) == Ok::<ManifestView, MalformedView>(manifest@),
        decreases sections.len() - i,
    {
        let section = &sections[i];
        proof {
            let read = all.take(i + 1);
            assert(read.drop_last() =~= all.take(i as int));
            assert(read.last() == section.deep_view());
        }
        match operation_from_key(&section.kind) {
            None => {
                proof {
                    lemma_defect_is_final(all, i + 1);
                }
                return Err(MalformedManifest::UnknownOperation { key: section.kind.clone() });
            },
            Some(operation) => match entries_from_objects(operation, &section.entries) {
                Err(index) => {
                    proof {
                        lemma_defect_is_final(all, i + 1);
                    }
                    return Err(MalformedManifest::InvalidEntry { operation, index });
                },
                Ok(entries) => {
                    match operation {
                        Operation::Insert => {
                            manifest.insert = Some(entries);
                        },
                        Operation::Update => {
                            manifest.update = Some(entries);
                        },
                        Operation::Delete => {
                            manifest.delete = Some(entries);
                        },
                    }
                },
            },
        }
        i += 1;
    }
    assert(all.take(i as int) =~= all);
    Ok(manifest)
}

/// A defect among the first `read` sections is the defect of the whole list.
proof fn lemma_defect_is_final(sections: Seq<SectionView>, read: int)
    requires
        0 <= read <= sections.len(),
        manifest_of(sections.take(read)) is Err,
    ensures
        manifest_of(sections) == manifest_of(sections.take(read)),
    decreases sections.len() - read,
{
    if read == sections.len() {
        assert(sections.take(read) =~= sections);
    } else {
        assert(sections.take(read + 1).drop_last() =~= sections.take(read));
        lemma_defect_is_final(sections, read + 1);
    }
}

/// Reads the payload of a request as a manifest. Nothing is read in part:
/// the result is the whole manifest or the first defect.
pub fn decode_manifest(payload: Option<&str>) -> (manifest: Result<Manifest, MalformedManifest>)
    ensures
        match manifest {
            Ok(m) => manifest_of_payload(payload.deep_view()) == Ok::<ManifestView, MalformedView>(
                m@,
            ),
            Err(e) => manifest_of_payload(payload.deep_view()) == Err::<
                ManifestView,
                MalformedView,
            >(e@),
        },
{
    match payload {
        None => Err(MalformedManifest::Absent),
        Some(text) => match parse_sections(text) {
            None => Err(MalformedManifest::Unreadable),
            Some(sections) => manifest_from_sections(&sections),
        },
    }
}

} // verus!
