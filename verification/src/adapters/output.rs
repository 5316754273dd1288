//! What is written out of a table: the records that are not discarded. A
//! stored value that does not read as the declared type of its field fails the
//! output, whatever the format.

pub mod csv;
pub mod json;
pub mod sql;

use crate::number::{conforms, reads_as};
use crate::table::{Field, FieldView, RecordView, Table, TableView};
use vstd::prelude::*;
use vstd::string::*;

verus! {

/// Options that the output formats take.
#[derive(Debug)]
pub struct Optionals {
    /// The table that SQL statements insert into.
    pub tname: String,
    /// The number of spaces that JSON output is indented by; the JSON writer
    /// takes at most `json::MAX_INDENT`.
    pub ispaces: u16,
}

/// A stored value does not read as the declared type of its field.
#[derive(Debug)]
pub struct Mistyped {
    /// The id of the record.
    pub record: u64,
    /// The name of the field.
    pub field: String,
}

/// What is handed to the writer of a format.
#[derive(Debug)]
pub enum Output {
    /// The bytes of the rows, the header first.
    Csv(Vec<u8>),
    /// Statements, one for each record.
    Sql(Vec<String>),
    /// The text of the document.
    Json(String),
}

/// Why a table was not written.
#[derive(Debug)]
pub enum WriteError {
    /// A stored value does not read as the declared type of its field.
    Mistyped(Mistyped),
    /// The rows cannot be encoded.
    Unwritable(::csv::Error),
    /// The indentation asked for, which is wider than the format can print.
    Indent(u16),
}

/// A writer of one format. Whatever the format, the records that are
/// discarded are not written, and a stored value that does not read as the
/// declared type of its field fails the output.
pub trait OutputAdapter {
    /// Whether the format can take the options.
    spec fn accepts(&self, optionals: Optionals) -> bool;

    /// Whether the format can take the table.
    spec fn writable(&self, t: TableView) -> bool;

    /// What is written for a table.
    spec fn renders(&self, t: TableView, optionals: Optionals, output: Output) -> bool;

    /// What the table gives in the format. Options that the format cannot
    /// take fail first, whatever the table; then the first value that does not
    /// read as declared; then a table that the format cannot take.
    fn write(&self, table: &Table, optionals: &Optionals) -> (r: Result<Output, WriteError>)
        requires
            table@.wf(),
        ensures
            match r {
                Ok(output) => self.accepts(*optionals) && well_typed(table@) && self.writable(
                    table@,
                ) && self.renders(table@, *optionals, output),
                Err(WriteError::Indent(asked)) => !self.accepts(*optionals) && asked
                    == optionals.ispaces,
                Err(WriteError::Mistyped(e)) => self.accepts(*optionals) && reports(table@, e),
                Err(WriteError::Unwritable(_)) => self.accepts(*optionals) && well_typed(table@)
                    && !self.writable(table@),
            },
    ;
}

/// The records that are not discarded, in table order.
pub open spec fn kept(records: Seq<RecordView>) -> Seq<RecordView>
    decreases records.len(),
{
    if records.len() == 0 {
        records
    } else if records.last().discarded {
        kept(records.drop_last())
    } else {
        kept(records.drop_last()).push(records.last())
    }
}

/// Every value of the record reads as the type of its field, or the record is
/// discarded.
pub open spec fn row_ok(t: TableView, r: int) -> bool {
    t.records[r].discarded || forall|c: int|
        0 <= c < t.fields.len() ==> conforms(
            #[trigger] t.records[r].values[c],
            t.fields[c].typed,
        )
}

/// Every record that is written reads as the schema declares.
pub open spec fn well_typed(t: TableView) -> bool {
    forall|r: int| 0 <= r < t.records.len() ==> row_ok(t, r)
}

/// Record `r` is the first that is written and does not read as declared, and
/// `c` is the first of its fields whose value does not.
pub open spec fn first_mistyped(t: TableView, r: int, c: int) -> bool {
    &&& 0 <= r < t.records.len()
    &&& forall|i: int| 0 <= i < r ==> row_ok(t, i)
    &&& !t.records[r].discarded
    &&& 0 <= c < t.fields.len()
    &&& !conforms(t.records[r].values[c], t.fields[c].typed)
    &&& forall|j: int|
        0 <= j < c ==> conforms(#[trigger] t.records[r].values[j], t.fields[j].typed)
}

/// The names of the fields, in order.
pub open spec fn names(fields: Seq<FieldView>) -> Seq<Seq<char>> {
    Seq::new(fields.len(), |c: int| fields[c].name)
}

/// The first stored value that does not read as declared, by record and field.
pub fn find_mistyped(table: &Table) -> (r: Option<(usize, usize)>)
    requires
        table@.wf(),
    ensures
        match r {
            Some((row, column)) => first_mistyped(table@, row as int, column as int),
            None => well_typed(table@),
        },
{
    let mut r: usize = 0;
    while r < table.records.len()
        invariant
            r <= table.records.len(),
            table@.wf(),
            forall|i: int| 0 <= i < r ==> row_ok(table@, i),
        decreases table.records.len() - r,
    {
        assert(table@.records[r as int] == table.records[r as int]@);
        assert(table@.records[r as int].values.len() == table.fields.len());
        if !table.records[r].discarded {
            let mut c: usize = 0;
            while c < table.fields.len()
                invariant
                    c <= table.fields.len(),
                    r < table.records.len(),
                    table.records[r as int].values.len() == table.fields.len(),
                    table@.records[r as int] == table.records[r as int]@,
                    !table.records[r as int].discarded,
                    forall|i: int| 0 <= i < r ==> row_ok(table@, i),
                    forall|j: int|
                        0 <= j < c ==> conforms(
                            #[trigger] table@.records[r as int].values[j],
                            table@.fields[j].typed,
                        ),
                decreases table.fields.len() - c,
            {
                assert(table@.fields[c as int] == table.fields[c as int]@);
                assert(table@.records[r as int].values[c as int]
                    == table.records[r as int].values[c as int]@);
                if !reads_as(table.records[r].values[c].as_str(), table.fields[c].typed) {
                    return Some((r, c));
                }
                c += 1;
            }
        }
        r += 1;
    }
    None
}

/// The report of the value at a record and a field.
pub(crate) fn mistyped_at(table: &Table, row: usize, column: usize) -> (r: Mistyped)
    requires
        row < table.records.len(),
        column < table.fields.len(),
    ensures
        r.record == table@.records[row as int].id,
        r.field@ == table@.fields[column as int].name,
{
    assert(table@.records[row as int] == table.records[row as int]@);
    assert(table@.fields[column as int] == table.fields[column as int]@);
    Mistyped { record: table.records[row].id, field: table.fields[column].name.clone() }
}

/// What a failed output reports: the first record that is written and does not
/// read as declared, with the first of its fields whose value does not.
pub open spec fn reports(t: TableView, e: Mistyped) -> bool {
    exists|r: int, c: int|
        first_mistyped(t, r, c) && e.record == t.records[r].id && e.field@ == t.fields[c].name
}

/// The names of the fields, in order.
pub(crate) fn field_names(fields: &Vec<Field>) -> (r: Vec<String>)
    ensures
        r.deep_view() == names(fields.deep_view()),
{
    let mut out: Vec<String> = Vec::new();
    let mut c: usize = 0;
    while c < fields.len()
        invariant
            c <= fields.len(),
            out.len() == c,
            forall|j: int| 0 <= j < c ==> (#[trigger] out[j])@ == fields[j]@.name,
        decreases fields.len() - c,
    {
        out.push(fields[c].name.clone());
        c += 1;
    }
    assert(out.deep_view() =~= names(fields.deep_view()));
    out
}

} // verus!
