//! The wording of diagnostics.

use crate::text::{decimal, render_number};
use vstd::prelude::*;
use vstd::string::*;

verus! {

/// The text that `flineerror` writes.
pub open spec fn line_error_text(file: Seq<char>, line: nat, error: Seq<char>) -> Seq<char> {
    "["@ + file + "] Error on line "@ + decimal(line) + ": "@ + error
}

/// The text that `fmissing` writes.
pub open spec fn missing_text(expected: Seq<char>) -> Seq<char> {
    "Missing '"@ + expected + "'"@
}

/// The text that `finvalid` writes.
pub open spec fn invalid_text(expected: Seq<char>, actual: Seq<char>) -> Seq<char> {
    "Invalid "@ + expected + ", found '"@ + actual + "'"@
}

/// The text that `finvalidkind` writes.
pub open spec fn invalid_kind_text(kind: Seq<char>, expected: Seq<char>, actual: Seq<char>) -> Seq<
    char,
> {
    "Invalid "@ + kind + ", expected "@ + expected + ", found '"@ + actual + "'"@
}

/// Prefixes a diagnostic with the file it concerns and the line it was raised on.
pub fn flineerror(file: &str, line: usize, error: String) -> (r: String)
    ensures
        r@ == line_error_text(file@, line as nat, error@),
{
    let mut out = String::from_str("[");
    out.append(file);
    out.append("] Error on line ");
    let number = render_number(line as u64);
    out.append(number.as_str());
    out.append(": ");
    out.append(error.as_str());
    out
}

/// Says that an expected token is absent.
pub fn fmissing(expected: &str) -> (r: String)
    ensures
        r@ == missing_text(expected@),
{
    let mut out = String::from_str("Missing '");
    out.append(expected);
    out.append("'");
    out
}

/// Says that a token could not be read as what its position expects.
pub fn finvalid(expected: &str, actual: String) -> (r: String)
    ensures
        r@ == invalid_text(expected@, actual@),
{
    let mut out = String::from_str("Invalid ");
    out.append(expected);
    out.append(", found '");
    out.append(actual.as_str());
    out.append("'");
    out
}

/// Says that a token of the right kind is not the one its position expects.
pub fn finvalidkind(kind: &str, expected: &str, actual: String) -> (r: String)
    ensures
        r@ == invalid_kind_text(kind@, expected@, actual@),
{
    let mut out = String::from_str("Invalid ");
    out.append(kind);
    out.append(", expected ");
    out.append(expected);
    out.append(", found '");
    out.append(actual.as_str());
    out.append("'");
    out
}

} // verus!
