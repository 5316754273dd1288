//! What goes into a table and what comes out of it. Input is decoded from
//! bytes and output is encoded as bytes, text or lines; reading and writing
//! them is left to the caller.

pub mod input;
pub mod output;
