//! A small line-oriented language for reshaping tabular data, with the engine
//! that applies it to a table held in memory.
//!
//! A line such as `COERCE age TYPED INTEGER RESCUE 0` is read into an
//! [`instructions::Instruction`]; a [`process::Process`] loads instructions
//! and a table, carries the instructions out in order, and hands out an audit
//! log and the table in the format asked for. What reading, carrying out and
//! writing do is stated over plain values (see [`parser`], [`engine`] and
//! [`adapters`]); what holds of every instruction and run is proved in
//! [`roundtrip`] and [`laws`].

pub mod adapters;
pub mod cli;
pub mod engine;
pub mod error;
pub mod grammar;
pub mod instructions;
pub mod laws;
pub mod messages;
pub mod number;
pub mod parser;
pub mod patterns;
pub mod process;
pub mod roundtrip;
pub mod table;
pub mod text;
pub mod validators;
