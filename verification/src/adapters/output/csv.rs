//! Output as CSV: a header row and one row for each record, written by the
//! `csv` crate.

use crate::adapters::output::{
    field_names, find_mistyped, kept, mistyped_at, names, reports, well_typed, Mistyped,
    Optionals, Output, OutputAdapter, WriteError,
};
use crate::table::{RecordView, Table, TableView};
use crate::text::copy_strings;
use vstd::prelude::*;
use vstd::string::*;

verus! {

/// The rows of text that are written: the names of the fields, then the values
/// of each record that is not discarded.
pub open spec fn text_rows(t: TableView) -> Seq<Seq<Seq<char>>> {
    seq![names(t.fields)] + Seq::new(
        kept(t.records).len(),
        |i: int| kept(t.records)[i].values,
    )
}

/// The bytes that the `csv` crate writes for rows; nothing where it cannot
/// write them.
pub uninterp spec fn encoded(rows: Seq<Seq<Seq<char>>>) -> Option<Seq<u8>>;

/// `Writer::from_writer` of the `csv` crate on an empty buffer, `write_record`
/// for each row in order, then `into_inner`: the bytes that were written; or
/// the error of the first row that cannot be written.
#[verifier::external_body]
fn encode(rows: &Vec<Vec<String>>) -> (r: Result<Vec<u8>, ::csv::Error>)
    ensures
        match r {
            Ok(bytes) => encoded(rows.deep_view()) == Some(bytes@),
            Err(_) => encoded(rows.deep_view()) is None,
        },
{
    let mut writer = ::csv::Writer::from_writer(Vec::new());
    for row in rows {
        writer.write_record(row.iter())?;
    }
    match writer.into_inner() {
        Ok(bytes) => Ok(bytes),
        Err(e) => Err(::csv::Error::from(e.into_error())),
    }
}

/// The writer of CSV.
#[derive(Debug)]
pub struct Adapter;

impl OutputAdapter for Adapter {
    /// CSV takes no options.
    open spec fn accepts(&self, optionals: Optionals) -> bool {
        true
    }

    /// The `csv` crate can encode the rows.
    open spec fn writable(&self, t: TableView) -> bool {
        encoded(text_rows(t)) is Some
    }

    /// The bytes that the `csv` crate writes for the rows.
    open spec fn renders(&self, t: TableView, optionals: Optionals, output: Output) -> bool {
        output matches Output::Csv(bytes) && encoded(text_rows(t)) == Some(bytes@)
    }

    fn write(&self, table: &Table, optionals: &Optionals) -> (r: Result<Output, WriteError>) {
        match self.rows(table) {
            Err(e) => Err(WriteError::Mistyped(e)),
            Ok(rows) => match encode(&rows) {
                Ok(bytes) => Ok(Output::Csv(bytes)),
                Err(e) => Err(WriteError::Unwritable(e)),
            },
        }
    }
}

impl Adapter {
    /// The rows of text to write, header first; or the first value that does not
    /// read as declared.
    pub fn rows(&self, table: &Table) -> (r: Result<Vec<Vec<String>>, Mistyped>)
        requires
            table@.wf(),
        ensures
            match r {
                Ok(rows) => well_typed(table@) && rows.deep_view() == text_rows(table@),
                Err(e) => reports(table@, e),
            },
    {
        if let Some((row, column)) = find_mistyped(table) {
            return Err(mistyped_at(table, row, column));
        }
        let mut out: Vec<Vec<String>> = Vec::new();
        out.push(field_names(&table.fields));
        let mut r: usize = 0;
        assert(table@.records.take(0) =~= Seq::<RecordView>::empty());
        assert(out.deep_view() =~= text_rows(
            TableView { fields: table@.fields, records: table@.records.take(0) },
        ));
        while r < table.records.len()
            invariant
                r <= table.records.len(),
                out.deep_view() == text_rows(
                    TableView { fields: table@.fields, records: table@.records.take(r as int) },
                ),
            decreases table.records.len() - r,
        {
            let ghost upto = table@.records.take(r + 1);
            let ghost sofar = out.deep_view();
            assert(upto.drop_last() =~= table@.records.take(r as int));
            assert(upto.last() == table.records[r as int]@);
            if !table.records[r].discarded {
                out.push(copy_strings(&table.records[r].values));
                assert(out.deep_view() =~= sofar.push(table.records[r as int]@.values));
                assert(out.deep_view() =~= text_rows(
                    TableView { fields: table@.fields, records: upto },
                ));
            }
            r += 1;
        }
        assert(table@.records.take(table.records.len() as int) =~= table@.records);
        Ok(out)
    }
}

} // verus!
