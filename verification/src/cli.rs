//! The choices a command line makes: which format is read, which is written,
//! and the options handed on to the output.

use crate::adapters::output::Optionals;
use crate::text::{split, split_on, str_eq};
use vstd::prelude::*;
use vstd::string::*;

verus! {

/// The upper-case form of a text.
pub uninterp spec fn uppercase(s: Seq<char>) -> Seq<char>;

/// `str::to_uppercase` of the standard library: the result is the upper-case
/// form of the argument, which depends on nothing else.
#[verifier::external_body]
fn to_upper(s: &str) -> (r: String)
    ensures
        r@ == uppercase(s@),
{
    s.to_uppercase()
}

/// The formats a table can be read from.
#[derive(Clone, Copy, Debug, PartialEq, Eq, Structural)]
pub enum InputFormat {
    CSV,
}

/// The formats a table can be written in.
#[derive(Clone, Copy, Debug, PartialEq, Eq, Structural)]
pub enum OutputFormat {
    CSV,
    SQL,
    JSON,
}

/// A format was asked for that is not supported; it carries the name as given.
#[derive(Debug)]
pub struct UnsupportedFormat(pub String);

impl InputFormat {
    /// The name of the format, in lower case.
    pub open spec fn name(self) -> Seq<char> {
        match self {
            InputFormat::CSV => "csv"@,
        }
    }

    /// The format that a lower-case name names.
    pub open spec fn named(name: Seq<char>) -> Option<InputFormat> {
        if name == "csv"@ {
            Some(InputFormat::CSV)
        } else {
            None
        }
    }

    /// The format that an upper-case name names.
    pub open spec fn of_upper(upper: Seq<char>) -> Option<InputFormat> {
        if upper == "CSV"@ {
            Some(InputFormat::CSV)
        } else {
            None
        }
    }

    /// Reads the upper-case form of a name.
    pub fn from_upper(upper: &str) -> (r: Option<InputFormat>)
        ensures
            r == InputFormat::of_upper(upper@),
    {
        if str_eq(upper, "CSV") {
            Some(InputFormat::CSV)
        } else {
            None
        }
    }

    /// Reads a name in any case; a name of no format is handed back as the error.
    pub fn from_str(s: &str) -> (r: Result<InputFormat, String>)
        ensures
            match r {
                Ok(f) => InputFormat::of_upper(uppercase(s@)) == Some(f),
                Err(e) => InputFormat::of_upper(uppercase(s@)) is None && e@ == s@,
            },
    {
        let upper = to_upper(s);
        match InputFormat::from_upper(upper.as_str()) {
            Some(f) => Ok(f),
            None => Err(s.to_owned()),
        }
    }

    /// Reads a lower-case name.
    pub fn from_name(name: &str) -> (r: Option<InputFormat>)
        ensures
            r == InputFormat::named(name@),
    {
        if str_eq(name, "csv") {
            Some(InputFormat::CSV)
        } else {
            None
        }
    }

    /// The name of the format, as text.
    pub fn to_string(&self) -> (r: String)
        ensures
            r@ == self.name(),
    {
        match self {
            InputFormat::CSV => "csv".to_owned(),
        }
    }
}

impl OutputFormat {
    /// The name of the format, in lower case.
    pub open spec fn name(self) -> Seq<char> {
        match self {
            OutputFormat::CSV => "csv"@,
            OutputFormat::SQL => "sql"@,
            OutputFormat::JSON => "json"@,
        }
    }

    /// The format that a lower-case name names.
    pub open spec fn named(name: Seq<char>) -> Option<OutputFormat> {
        if name == "csv"@ {
            Some(OutputFormat::CSV)
        } else if name == "json"@ {
            Some(OutputFormat::JSON)
        } else if name == "sql"@ {
            Some(OutputFormat::SQL)
        } else {
            None
        }
    }

    /// The format that an upper-case name names.
    pub open spec fn of_upper(upper: Seq<char>) -> Option<OutputFormat> {
        if upper == "CSV"@ {
            Some(OutputFormat::CSV)
        } else if upper == "SQL"@ {
            Some(OutputFormat::SQL)
        } else if upper == "JSON"@ {
            Some(OutputFormat::JSON)
        } else {
            None
        }
    }

    /// Reads the upper-case form of a name.
    pub fn from_upper(upper: &str) -> (r: Option<OutputFormat>)
        ensures
            r == OutputFormat::of_upper(upper@),
    {
        if str_eq(upper, "CSV") {
            Some(OutputFormat::CSV)
        } else if str_eq(upper, "SQL") {
            Some(OutputFormat::SQL)
        } else if str_eq(upper, "JSON") {
            Some(OutputFormat::JSON)
        } else {
            None
        }
    }

    /// Reads a name in any case; a name of no format is handed back as the error.
    pub fn from_str(s: &str) -> (r: Result<OutputFormat, String>)
        ensures
            match r {
                Ok(f) => OutputFormat::of_upper(uppercase(s@)) == Some(f),
                Err(e) => OutputFormat::of_upper(uppercase(s@)) is None && e@ == s@,
            },
    {
        let upper = to_upper(s);
        match OutputFormat::from_upper(upper.as_str()) {
            Some(f) => Ok(f),
            None => Err(s.to_owned()),
        }
    }

    /// Reads a lower-case name.
    pub fn from_name(name: &str) -> (r: Option<OutputFormat>)
        ensures
            r == OutputFormat::named(name@),
    {
        if str_eq(name, "csv") {
            Some(OutputFormat::CSV)
        } else if str_eq(name, "json") {
            Some(OutputFormat::JSON)
        } else if str_eq(name, "sql") {
            Some(OutputFormat::SQL)
        } else {
            None
        }
    }

    /// The name of the format, as text.
    pub fn to_string(&self) -> (r: String)
        ensures
            r@ == self.name(),
    {
        match self {
            OutputFormat::CSV => "csv".to_owned(),
            OutputFormat::SQL => "sql".to_owned(),
            OutputFormat::JSON => "json".to_owned(),
        }
    }
}

/// The text of an optional string.
pub open spec fn given(s: Option<String>) -> Option<Seq<char>> {
    match s {
        Some(text) => Some(text@),
        None => None,
    }
}

/// The name of the format to use: the one given for both directions, else the
/// one given for this direction, else what follows the last dot of the file
/// name, else nothing.
pub open spec fn chosen(
    both: Option<Seq<char>>,
    one: Option<Seq<char>>,
    file: Option<Seq<char>>,
) -> Seq<char> {
    match both {
        Some(name) => name,
        None => match one {
            Some(name) => name,
            None => match file {
                Some(name) => split(name, '.').last(),
                None => Seq::<char>::empty(),
            },
        },
    }
}

fn choose_name(both: &Option<String>, one: &Option<String>, file: &Option<String>) -> (r: String)
    ensures
        r@ == chosen(given(*both), given(*one), given(*file)),
{
    match both {
        Some(name) => name.clone(),
        None => match one {
            Some(name) => name.clone(),
            None => match file {
                Some(name) => {
                    let parts = split_on(name.as_str(), '.');
                    assert(parts.deep_view().last() == parts[parts.len() - 1]@);
                    parts[parts.len() - 1].clone()
                },
                None => String::new(),
            },
        },
    }
}

/// The arguments of the command line, as plain values.
#[derive(Debug)]
pub struct Cli {
    /// Evaluate the instructions in reverse. Reserved.
    pub undo: bool,
    /// Overwrite the output.
    pub overwrite: bool,
    /// How much to say.
    pub verbose: u8,
    /// The file name of the input, without its directories; none for standard input.
    pub input: Option<String>,
    /// The file name of the output, without its directories; none for standard output.
    pub output: Option<String>,
    /// The format of the input.
    pub from: Option<String>,
    /// The format of the output.
    pub to: Option<String>,
    /// The path of the instructions.
    pub instructions: String,
    /// The path of the log; none for standard output.
    pub logger: Option<String>,
    /// The format of input and output; it overrides `from` and `to`.
    pub format: Option<String>,
    /// The table that SQL output inserts into.
    pub tname: String,
    /// The indentation of JSON output.
    pub ispaces: u16,
}

impl Cli {
    /// The format to read.
    pub fn iformat(&self) -> (r: Result<InputFormat, UnsupportedFormat>)
        ensures
            ({
                let name = chosen(given(self.format), given(self.from), given(self.input));
                match r {
                    Ok(f) => InputFormat::named(name) == Some(f),
                    Err(e) => InputFormat::named(name) is None && e.0@ == name,
                }
            }),
    {
        let name = choose_name(&self.format, &self.from, &self.input);
        match InputFormat::from_name(name.as_str()) {
            Some(f) => Ok(f),
            None => Err(UnsupportedFormat(name)),
        }
    }

    /// The format to write.
    pub fn oformat(&self) -> (r: Result<OutputFormat, UnsupportedFormat>)
        ensures
            ({
                let name = chosen(given(self.format), given(self.to), given(self.output));
                match r {
                    Ok(f) => OutputFormat::named(name) == Some(f),
                    Err(e) => OutputFormat::named(name) is None && e.0@ == name,
                }
            }),
    {
        let name = choose_name(&self.format, &self.to, &self.output);
        match OutputFormat::from_name(name.as_str()) {
            Some(f) => Ok(f),
            None => Err(UnsupportedFormat(name)),
        }
    }

    /// The options handed on to the output.
    pub fn optionals(&self) -> (r: Optionals)
        ensures
            r.ispaces == self.ispaces,
            r.tname@ == self.tname@,
    {
        Optionals { ispaces: self.ispaces, tname: self.tname.clone() }
    }
}

} // verus!
