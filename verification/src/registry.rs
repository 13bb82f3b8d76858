//! Record types for registry query responses in VOTable form: the
//! shapes a registry endpoint's XML answer is read into.  They are plain
//! data, consumed by callers that walk a parsed document; the document
//! model itself knows nothing of them.

use vstd::prelude::*;

verus! {

/// A whole VOTable response: its format version and one resource.
#[derive(Debug)]
pub struct VOTable {
    pub version: String,
    pub resource: Resource,
}

/// One RESOURCE element of a VOTable: its type, informational entries
/// and tables.
#[derive(Debug)]
pub struct Resource {
    pub resource_type: String,
    pub info: Vec<Info>,
    pub table: Vec<Table>,
}

/// One INFO entry: a named value with an optional content descriptor
/// and optional text.
#[derive(Debug)]
pub struct Info {
    pub name: String,
    pub value: String,
    pub ucd: Option<String>,
    pub text: Option<String>,
}

/// One TABLE element: its name, its groups and fields, and its data.
#[derive(Debug)]
pub struct Table {
    pub name: String,
    pub groups: Vec<Group>,
    pub fields: Vec<Field>,
    pub data: Data,
}

/// One GROUP element: an identified, named group with an optional
/// description and an optional field.
#[derive(Debug)]
pub struct Group {
    pub id: String,
    pub name: String,
    pub description: Option<Description>,
    pub field: Option<Field>,
}

/// One FIELD or FIELDref element: a column description, or a reference
/// to one defined elsewhere.
#[derive(Debug)]
pub enum Field {
    FieldMetadata {
        id: String,
        name: Option<String>,
        arraysize: Option<String>,
        datatype: Option<String>,
        utype: Option<String>,
        ucd: Option<String>,
        unit: Option<String>,
        description: Option<Description>,
    },
    FieldReference {
        reference: String,
    },
}

/// The text of a DESCRIPTION element.
#[derive(Debug)]
pub struct Description {
    pub text: String,
}

/// The DATA element of a table: its content in one of the supported
/// serializations.
#[derive(Debug)]
pub struct Data {
    pub content: DataType,
}

/// The serialization of a table's data: inline rows, or a binary
/// stream.
#[derive(Debug)]
pub enum DataType {
    TableData(TableData),
    BinaryData(Binary),
}

/// Inline table data: its rows.
#[derive(Debug)]
pub struct TableData {
    pub rows: Vec<Row>,
}

/// One TR row: its cells.
#[derive(Debug)]
pub struct Row {
    pub cells: Vec<Cell>,
}

/// One TD cell: its text.
#[derive(Debug)]
pub struct Cell {
    pub text: String,
}

/// A BINARY element: its stream.
#[derive(Debug)]
pub struct Binary {
    pub stream: Stream,
}

/// A STREAM element: its encoding, optional compression, and optional
/// content.
#[derive(Debug)]
pub struct Stream {
    pub encoding: String,
    pub compression: Option<String>,
    pub text: Option<String>,
}

} // verus!
