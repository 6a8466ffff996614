//! What one indexed entry becomes when it is written: a row of the path
//! table and the replication operation that tells other devices of it.

use crate::indexer::{EntryView, IndexerJobStepEntry};
use vstd::prelude::*;
use vstd::string::*;

verus! {

/// Maps an optional machine integer to an optional mathematical one.
pub open spec fn opt_int(v: Option<i32>) -> Option<int> {
    match v {
        Some(n) => Some(n as int),
        None => None,
    }
}

/// A value of a replicated field.
#[derive(Debug)]
pub enum FieldValue {
    Text(String),
    Bool(bool),
    /// An optional row id: `None` is replicated as null.
    Reference(Option<i32>),
    /// Milliseconds since the epoch.
    Timestamp(i64),
}

/// A field value as plain values.
pub enum FieldValueView {
    Text(Seq<char>),
    Bool(bool),
    Reference(Option<int>),
    Timestamp(int),
}

impl View for FieldValue {
    type V = FieldValueView;

    open spec fn view(&self) -> FieldValueView {
        match self {
            FieldValue::Text(s) => FieldValueView::Text(s@),
            FieldValue::Bool(b) => FieldValueView::Bool(*b),
            FieldValue::Reference(r) => FieldValueView::Reference(opt_int(*r)),
            FieldValue::Timestamp(t) => FieldValueView::Timestamp(*t as int),
        }
    }
}

/// A replicated field: its name and its value.
#[derive(Debug)]
pub struct SyncField {
    pub name: String,
    pub value: FieldValue,
}

/// A replicated field as plain values.
pub struct SyncFieldView {
    pub name: Seq<char>,
    pub value: FieldValueView,
}

impl View for SyncField {
    type V = SyncFieldView;

    open spec fn view(&self) -> SyncFieldView {
        SyncFieldView { name: self.name@, value: self.value@ }
    }
}

impl DeepView for SyncField {
    type V = SyncFieldView;

    open spec fn deep_view(&self) -> SyncFieldView {
        self@
    }
}

/// The replication record of one written row. It names the row by the
/// location's global identifier and the entry's id, so that it means the same
/// on a device that never saw the local location id.
#[derive(Debug)]
pub struct SyncOperation {
    pub location_pub_id: Vec<u8>,
    pub file_id: i32,
    pub fields: Vec<SyncField>,
}

/// A replication record as plain values.
pub struct SyncOperationView {
    pub location_pub_id: Seq<u8>,
    pub file_id: int,
    pub fields: Seq<SyncFieldView>,
}

impl View for SyncOperation {
    type V = SyncOperationView;

    open spec fn view(&self) -> SyncOperationView {
        SyncOperationView {
            location_pub_id: self.location_pub_id@,
            file_id: self.file_id as int,
            fields: self.fields.deep_view(),
        }
    }
}

/// A row of the path table. Its id is the one the walk gave the entry, not
/// one the table made up: parents and children name each other before any
/// row exists.
#[derive(Debug)]
pub struct FilePathRow {
    pub id: i32,
    pub location_id: i32,
    pub materialized_path: String,
    pub name: String,
    pub extension: String,
    pub is_dir: bool,
    pub parent_id: Option<i32>,
    pub date_created: i64,
}

/// A row as plain values.
pub struct FilePathRowView {
    pub id: int,
    pub location_id: int,
    pub materialized_path: Seq<char>,
    pub name: Seq<char>,
    pub extension: Seq<char>,
    pub is_dir: bool,
    pub parent_id: Option<int>,
    pub date_created: int,
}

impl View for FilePathRow {
    type V = FilePathRowView;

    open spec fn view(&self) -> FilePathRowView {
        FilePathRowView {
            id: self.id as int,
            location_id: self.location_id as int,
            materialized_path: self.materialized_path@,
            name: self.name@,
            extension: self.extension@,
            is_dir: self.is_dir,
            parent_id: opt_int(self.parent_id),
            date_created: self.date_created as int,
        }
    }
}

/// A row and the operation that replicates it. The two are made together
/// and written together, so neither exists without the other.
#[derive(Debug)]
pub struct WriteRecord {
    pub operation: SyncOperation,
    pub row: FilePathRow,
}

/// A write record as plain values.
pub struct WriteRecordView {
    pub operation: SyncOperationView,
    pub row: FilePathRowView,
}

impl View for WriteRecord {
    type V = WriteRecordView;

    open spec fn view(&self) -> WriteRecordView {
        WriteRecordView { operation: self.operation@, row: self.row@ }
    }
}

impl DeepView for WriteRecord {
    type V = WriteRecordView;

    open spec fn deep_view(&self) -> WriteRecordView {
        self@
    }
}

/// The row that records `entry` in the location `location_id`.
pub open spec fn row_of(location_id: int, entry: EntryView) -> FilePathRowView {
    FilePathRowView {
        id: entry.file_id,
        location_id,
        materialized_path: entry.materialized_path.materialized_path,
        name: entry.materialized_path.name,
        extension: entry.materialized_path.extension,
        is_dir: entry.materialized_path.is_dir,
        parent_id: entry.parent_id,
        date_created: entry.created_at,
    }
}

/// The fields that replicate `entry`, in the order in which they are sent.
pub open spec fn fields_of(entry: EntryView) -> Seq<SyncFieldView> {
    seq![
        SyncFieldView {
            name: "materialized_path"@,
            value: FieldValueView::Text(entry.materialized_path.materialized_path),
        },
        SyncFieldView { name: "name"@, value: FieldValueView::Text(entry.materialized_path.name) },
        SyncFieldView { name: "is_dir"@, value: FieldValueView::Bool(entry.materialized_path.is_dir) },
        SyncFieldView {
            name: "extension"@,
            value: FieldValueView::Text(entry.materialized_path.extension),
        },
        SyncFieldView { name: "parent_id"@, value: FieldValueView::Reference(entry.parent_id) },
        SyncFieldView { name: "date_created"@, value: FieldValueView::Timestamp(entry.created_at) },
    ]
}

/// The operation that replicates `entry` of the location with the global
/// identifier `pub_id`.
pub open spec fn operation_of(pub_id: Seq<u8>, entry: EntryView) -> SyncOperationView {
    SyncOperationView {
        location_pub_id: pub_id,
        file_id: entry.file_id,
        fields: fields_of(entry),
    }
}

/// Row and operation of `entry`, both made from the same data.
pub open spec fn record_of(location_id: int, pub_id: Seq<u8>, entry: EntryView) -> WriteRecordView {
    WriteRecordView { operation: operation_of(pub_id, entry), row: row_of(location_id, entry) }
}

fn text_field(name: &str, value: &String) -> (r: SyncField)
    ensures
        r@ == (SyncFieldView { name: name@, value: FieldValueView::Text(value@) }),
{
    SyncField { name: String::from_str(name), value: FieldValue::Text(value.clone()) }
}

/// Copies a byte string.
pub fn copy_bytes(bytes: &Vec<u8>) -> (r: Vec<u8>)
    ensures
        r@ == bytes@,
{
    let mut out: Vec<u8> = Vec::new();
    let mut i: usize = 0;
    while i < bytes.len()
        invariant
            i <= bytes.len(),
            out@ == bytes@.take(i as int),
        decreases bytes.len() - i,
    {
        out.push(bytes[i]);
        assert(out@ =~= bytes@.take(i + 1));
        i = i + 1;
    }
    assert(bytes@.take(bytes.len() as int) =~= bytes@);
    out
}

/// Makes the row and the replication operation of one entry.
pub fn make_record(location_id: i32, pub_id: &Vec<u8>, entry: &IndexerJobStepEntry) -> (r:
    WriteRecord)
    ensures
        r@ == record_of(location_id as int, pub_id@, entry@),
{
    let path = &entry.materialized_path;
    let mut fields: Vec<SyncField> = Vec::new();
    fields.push(text_field("materialized_path", &path.materialized_path));
    fields.push(text_field("name", &path.name));
    fields.push(SyncField { name: String::from_str("is_dir"), value: FieldValue::Bool(path.is_dir) });
    fields.push(text_field("extension", &path.extension));
    fields.push(
        SyncField {
            name: String::from_str("parent_id"),
            value: FieldValue::Reference(entry.parent_id),
        },
    );
    fields.push(
        SyncField {
            name: String::from_str("date_created"),
            value: FieldValue::Timestamp(entry.created_at),
        },
    );
    assert(fields.deep_view() =~= fields_of(entry@));
    let operation = SyncOperation {
        location_pub_id: copy_bytes(pub_id),
        file_id: entry.file_id,
        fields,
    };
    let row = FilePathRow {
        id: entry.file_id,
        location_id,
        materialized_path: path.materialized_path.clone(),
        name: path.name.clone(),
        extension: path.extension.clone(),
        is_dir: path.is_dir,
        parent_id: entry.parent_id,
        date_created: entry.created_at,
    };
    WriteRecord { operation, row }
}

} // verus!
