//! Ingestion of CSV: the `csv` crate reads the records, the first of them is
//! the header, and the table is made of header and rows.

use crate::adapters::input::{InputAdapter, ReadError};
use crate::table::{ingested, loaded, Table};
use vstd::prelude::*;
use vstd::string::*;

verus! {

/// The error type of the `csv` crate.
#[verifier::external_type_specification]
#[verifier::external_body]
pub struct ExCsvError(::csv::Error);

/// The records that the `csv` crate reads from bytes, the header record
/// first; nothing where it cannot read them.
pub uninterp spec fn decoded(bytes: Seq<u8>) -> Option<Seq<Seq<Seq<char>>>>;

/// `Reader::from_reader` of the `csv` crate on the bytes, then `headers` and
/// `into_records`: the header record and the records behind it, in order, each
/// as the texts of its fields; or the error of the first record that cannot
/// be read.
#[verifier::external_body]
fn decode(bytes: &[u8]) -> (r: Result<Vec<Vec<String>>, ::csv::Error>)
    ensures
        match r {
            Ok(records) => decoded(bytes@) == Some(records.deep_view()),
            Err(_) => decoded(bytes@) is None,
        },
{
    let mut reader = ::csv::Reader::from_reader(bytes);
    let mut records: Vec<Vec<String>> = Vec::new();
    records.push(reader.headers()?.iter().map(String::from).collect());
    for record in reader.into_records() {
        records.push(record?.iter().map(String::from).collect());
    }
    Ok(records)
}

/// What reading gives for the records that were decoded: the table of the
/// header and the rows behind it, or the reason they make none. No record at
/// all gives the table without fields and records.
pub open spec fn read_as(records: Seq<Seq<Seq<char>>>, r: Result<Table, ReadError>) -> bool {
    if records.len() == 0 {
        r matches Ok(t) && t@ == ingested(Seq::empty(), Seq::empty())
    } else {
        match r {
            Ok(t) => loaded(records[0], records.subrange(1, records.len() as int), Ok(t@)),
            Err(ReadError::Table(e)) => loaded(
                records[0],
                records.subrange(1, records.len() as int),
                Err(e),
            ),
            Err(ReadError::Undecodable(_)) => false,
        }
    }
}

/// The reader of CSV.
#[derive(Debug)]
pub struct Adapter;

impl InputAdapter for Adapter {
    /// Bytes that the `csv` crate cannot decode are not read; of those it
    /// decodes, the first record is the header and the others are the rows.
    open spec fn reads(&self, bytes: Seq<u8>, r: Result<Table, ReadError>) -> bool {
        match decoded(bytes) {
            None => r matches Err(ReadError::Undecodable(_)),
            Some(records) => read_as(records, r),
        }
    }

    fn read(&self, bytes: &[u8]) -> (r: Result<Table, ReadError>) {
        let mut records = match decode(bytes) {
            Err(e) => {
                return Err(ReadError::Undecodable(e));
            },
            Ok(records) => records,
        };
        let ghost all = records.deep_view();
        if records.len() == 0 {
            let none: Vec<String> = Vec::new();
            let rows: Vec<Vec<String>> = Vec::new();
            assert(none.deep_view() =~= Seq::<Seq<char>>::empty());
            assert(rows.deep_view() =~= Seq::<Seq<Seq<char>>>::empty());
            return match Table::load(&none, &rows) {
                Ok(t) => Ok(t),
                Err(e) => Err(ReadError::Table(e)),
            };
        }
        let header = records.remove(0);
        assert(header.deep_view() == all[0]);
        assert(records.deep_view() =~= all.subrange(1, all.len() as int));
        match Table::load(&header, &records) {
            Ok(t) => Ok(t),
            Err(e) => Err(ReadError::Table(e)),
        }
    }
}

} // verus!
