//! Line-tagged diagnostics of the instruction parser.

use crate::grammar::Connector;
use crate::messages::{
    finvalid, finvalidkind, flineerror, fmissing, invalid_kind_text, invalid_text,
    line_error_text, missing_text,
};
use vstd::prelude::*;
use vstd::string::*;

verus! {

/// The kinds of token a grammar position can ask for.
#[derive(Clone, Copy, Debug, PartialEq, Eq, Structural)]
pub enum Token {
    TYPE,
    FIELD,
    VALUE,
    FIELDS,
    FORMAT,
    ACTION,
    CONNECTOR,
    EXPRESSION,
    INSTRUCTION,
}

impl Token {
    /// The name of the kind as diagnostics write it.
    pub open spec fn label(self) -> Seq<char> {
        match self {
            Token::TYPE => "<type>"@,
            Token::FIELD => "<field>"@,
            Token::VALUE => "<value>"@,
            Token::FIELDS => "<fields>"@,
            Token::FORMAT => "<format>"@,
            Token::ACTION => "<action>"@,
            Token::CONNECTOR => "<connector>"@,
            Token::EXPRESSION => "<expression>"@,
            Token::INSTRUCTION => "<instruction>"@,
        }
    }

    /// The name of the kind, as text.
    pub fn to_string(&self) -> (r: String)
        ensures
            r@ == self.label(),
    {
        match self {
            Token::TYPE => "<type>".to_owned(),
            Token::FIELD => "<field>".to_owned(),
            Token::VALUE => "<value>".to_owned(),
            Token::FIELDS => "<fields>".to_owned(),
            Token::FORMAT => "<format>".to_owned(),
            Token::ACTION => "<action>".to_owned(),
            Token::CONNECTOR => "<connector>".to_owned(),
            Token::EXPRESSION => "<expression>".to_owned(),
            Token::INSTRUCTION => "<instruction>".to_owned(),
        }
    }
}

/// What a grammar position expects: a token of some kind, or one given connector.
#[derive(Clone, Copy, Debug, PartialEq, Eq, Structural)]
pub enum Slot {
    Operand(Token),
    Keyword(Connector),
}

impl Slot {
    /// The name of the position as diagnostics write it.
    pub open spec fn label(self) -> Seq<char> {
        match self {
            Slot::Operand(kind) => kind.label(),
            Slot::Keyword(connector) => connector.keyword(),
        }
    }

    /// The name of the position, as text.
    pub fn to_string(&self) -> (r: String)
        ensures
            r@ == self.label(),
    {
        match self {
            Slot::Operand(kind) => kind.to_string(),
            Slot::Keyword(connector) => connector.to_string(),
        }
    }
}

/// Why a line could not be read as an instruction. Each carries the 1-based
/// number of the line.
#[derive(Debug)]
pub enum ParseError {
    /// The line ends before the position.
    MissingToken(Slot, usize),
    /// The token at the position spells no member of the vocabulary asked for.
    InvalidToken(Token, String, usize),
    /// The position holds a connector, but not the expected one.
    WrongConnector(Connector, Connector, usize),
    /// The leading keyword names no instruction.
    UnknownInstruction(String, usize),
}

/// A parse error with its texts as character sequences.
pub enum ParseErrorView {
    MissingToken(Slot, usize),
    InvalidToken(Token, Seq<char>, usize),
    WrongConnector(Connector, Connector, usize),
    UnknownInstruction(Seq<char>, usize),
}

impl ParseErrorView {
    /// The line the error was raised on.
    pub open spec fn line(self) -> usize {
        match self {
            ParseErrorView::MissingToken(_, line) => line,
            ParseErrorView::InvalidToken(_, _, line) => line,
            ParseErrorView::WrongConnector(_, _, line) => line,
            ParseErrorView::UnknownInstruction(_, line) => line,
        }
    }

    /// What is wrong, naming what was expected and what was found.
    pub open spec fn message(self) -> Seq<char> {
        match self {
            ParseErrorView::MissingToken(slot, _) => missing_text(slot.label()),
            ParseErrorView::InvalidToken(kind, found, _) => invalid_text(kind.label(), found),
            ParseErrorView::WrongConnector(expected, found, _) => invalid_kind_text(
                Token::CONNECTOR.label(),
                expected.keyword(),
                found.keyword(),
            ),
            ParseErrorView::UnknownInstruction(keyword, _) => invalid_text(
                Token::INSTRUCTION.label(),
                keyword,
            ),
        }
    }
}

impl View for ParseError {
    type V = ParseErrorView;

    open spec fn view(&self) -> ParseErrorView {
        match self {
            ParseError::MissingToken(slot, line) => ParseErrorView::MissingToken(*slot, *line),
            ParseError::InvalidToken(kind, found, line) => ParseErrorView::InvalidToken(
                *kind,
                found@,
                *line,
            ),
            ParseError::WrongConnector(expected, found, line) => ParseErrorView::WrongConnector(
                *expected,
                *found,
                *line,
            ),
            ParseError::UnknownInstruction(keyword, line) => ParseErrorView::UnknownInstruction(
                keyword@,
                *line,
            ),
        }
    }
}

impl ParseError {
    /// The line the error was raised on.
    pub fn line(&self) -> (r: usize)
        ensures
            r == self@.line(),
    {
        match self {
            ParseError::MissingToken(_, line) => *line,
            ParseError::InvalidToken(_, _, line) => *line,
            ParseError::WrongConnector(_, _, line) => *line,
            ParseError::UnknownInstruction(_, line) => *line,
        }
    }

    /// What is wrong, naming what was expected and what was found.
    pub fn message(&self) -> (r: String)
        ensures
            r@ == self@.message(),
    {
        match self {
            ParseError::MissingToken(slot, _) => {
                let expected = slot.to_string();
                fmissing(expected.as_str())
            },
            ParseError::InvalidToken(kind, found, _) => {
                let expected = kind.to_string();
                finvalid(expected.as_str(), found.clone())
            },
            ParseError::WrongConnector(expected, found, _) => {
                let kind = Token::CONNECTOR.to_string();
                let wanted = expected.to_string();
                finvalidkind(kind.as_str(), wanted.as_str(), found.to_string())
            },
            ParseError::UnknownInstruction(keyword, _) => {
                let kind = Token::INSTRUCTION.to_string();
                finvalid(kind.as_str(), keyword.clone())
            },
        }
    }

    /// The full diagnostic: the file, the line and the message.
    pub fn to_string(&self, file: &str) -> (r: String)
        ensures
            r@ == line_error_text(file@, self@.line() as nat, self@.message()),
    {
        flineerror(file, self.line(), self.message())
    }
}

} // verus!
