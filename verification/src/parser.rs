//! Reading a whole instruction stream, line by line.

use crate::error::{ParseError, ParseErrorView};
use crate::instructions::{Instruction, InstructionView};
use crate::text::{tokenize, tokens};
use vstd::prelude::*;
use vstd::string::*;

verus! {

/// What one line of the stream holds: nothing for a line without tokens, else
/// the instruction it spells or the reason it spells none.
pub open spec fn parse_line(line: Seq<char>, number: usize) -> Result<
    Option<InstructionView>,
    ParseErrorView,
> {
    let words = tokens(line);
    if words.len() == 0 {
        Ok(None)
    } else {
        match InstructionView::of(words, number) {
            Ok(built) => Ok(Some(built)),
            Err(e) => Err(e),
        }
    }
}

/// The instructions of a stream in the order of their lines, lines numbered
/// from 1; or the error of the first line that cannot be read.
pub open spec fn parse_lines(lines: Seq<Seq<char>>) -> Result<
    Seq<InstructionView>,
    ParseErrorView,
>
    decreases lines.len(),
{
    if lines.len() == 0 {
        Ok(Seq::<InstructionView>::empty())
    } else {
        match parse_lines(lines.drop_last()) {
            Err(e) => Err(e),
            Ok(done) => match parse_line(lines.last(), lines.len() as usize) {
                Err(e) => Err(e),
                Ok(None) => Ok(done),
                Ok(Some(built)) => Ok(done.push(built)),
            },
        }
    }
}

/// The reader of instruction streams.
#[derive(Debug)]
pub struct InstructionParser;

impl InstructionParser {
    /// Reads one line. A line without tokens holds no instruction and is no error.
    pub fn from_line(line: &str, number: usize) -> (r: Result<Option<Instruction>, ParseError>)
        ensures
            match r {
                Ok(Some(built)) => parse_line(line@, number) == Ok::<
                    Option<InstructionView>,
                    ParseErrorView,
                >(Some(built@)),
                Ok(None) => parse_line(line@, number) == Ok::<
                    Option<InstructionView>,
                    ParseErrorView,
                >(None),
                Err(e) => parse_line(line@, number) == Err::<
                    Option<InstructionView>,
                    ParseErrorView,
                >(e@),
            },
    {
        let words = tokenize(line);
        if words.len() == 0 {
            Ok(None)
        } else {
            match Instruction::build(&words, number) {
                Ok(built) => Ok(Some(built)),
                Err(e) => Err(e),
            }
        }
    }

    /// Reads a stream. Any line that cannot be read fails the whole stream.
    pub fn parse(lines: &Vec<String>) -> (r: Result<Vec<Instruction>, ParseError>)
        ensures
            match r {
                Ok(built) => parse_lines(lines.deep_view()) == Ok::<
                    Seq<InstructionView>,
                    ParseErrorView,
                >(built.deep_view()),
                Err(e) => parse_lines(lines.deep_view()) == Err::<
                    Seq<InstructionView>,
                    ParseErrorView,
                >(e@),
            },
    {
        let mut done: Vec<Instruction> = Vec::new();
        let mut i: usize = 0;
        assert(lines.deep_view().take(0) =~= Seq::<Seq<char>>::empty());
        assert(done.deep_view() =~= Seq::<InstructionView>::empty());
        while i < lines.len()
            invariant
                i <= lines.len(),
                parse_lines(lines.deep_view().take(i as int)) == Ok::<
                    Seq<InstructionView>,
                    ParseErrorView,
                >(done.deep_view()),
            decreases lines.len() - i,
        {
            let ghost before = lines.deep_view().take(i as int);
            let ghost after = lines.deep_view().take(i + 1);
            let ghost old_done = done.deep_view();
            assert(after.drop_last() =~= before);
            assert(after.last() == lines[i as int]@);
            match InstructionParser::from_line(lines[i].as_str(), i + 1) {
                Err(e) => {
                    proof {
                        lemma_error_stays(lines.deep_view(), i + 1);
                    }
                    return Err(e);
                },
                Ok(None) => {},
                Ok(Some(built)) => {
                    done.push(built);
                    assert(done.deep_view() =~= old_done.push(built@));
                },
            }
            i += 1;
        }
        assert(lines.deep_view().take(lines.len() as int) =~= lines.deep_view());
        Ok(done)
    }

    /// Reads a stream if there is one; without a stream there are no instructions.
    pub fn from_instructor(instructor: Option<&Vec<String>>) -> (r: Result<
        Vec<Instruction>,
        ParseError,
    >)
        ensures
            match (instructor, r) {
                (None, Ok(built)) => built.len() == 0,
                (None, Err(_)) => false,
                (Some(lines), Ok(built)) => parse_lines(lines.deep_view()) == Ok::<
                    Seq<InstructionView>,
                    ParseErrorView,
                >(built.deep_view()),
                (Some(lines), Err(e)) => parse_lines(lines.deep_view()) == Err::<
                    Seq<InstructionView>,
                    ParseErrorView,
                >(e@),
            },
    {
        match instructor {
            None => Ok(Vec::new()),
            Some(lines) => InstructionParser::parse(lines),
        }
    }
}

/// An error among the first `k` lines is the error of the whole stream.
pub proof fn lemma_error_stays(lines: Seq<Seq<char>>, k: int)
    requires
        0 <= k <= lines.len(),
        parse_lines(lines.take(k)) is Err,
    ensures
        parse_lines(lines) == parse_lines(lines.take(k)),
    decreases lines.len() - k,
{
    if k == lines.len() {
        assert(lines.take(k) =~= lines);
    } else {
        assert(lines.take(k + 1).drop_last() =~= lines.take(k));
        lemma_error_stays(lines, k + 1);
    }
}

} // verus!
