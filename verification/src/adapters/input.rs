//! Ingestion of tables from the formats that can be read.

pub mod csv;

use crate::table::{LoadError, Table};
use vstd::prelude::*;

verus! {

/// Why bytes were not read as a table.
#[derive(Debug)]
pub enum ReadError {
    /// The bytes cannot be decoded.
    Undecodable(::csv::Error),
    /// The records make no table.
    Table(LoadError),
}

/// A reader of one format.
pub trait InputAdapter {
    /// What reading the bytes gives.
    spec fn reads(&self, bytes: Seq<u8>, r: Result<Table, ReadError>) -> bool;

    /// Makes a table of bytes: every field of type `STRING`, every record
    /// kept, ids counted from 0 in the order of the records.
    fn read(&self, bytes: &[u8]) -> (r: Result<Table, ReadError>)
        ensures
            r matches Ok(t) ==> t@.wf(),
            self.reads(bytes@, r),
    ;
}

} // verus!
