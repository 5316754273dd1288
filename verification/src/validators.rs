//! Positional validators: each reads the token at one grammar position, or
//! says with the line number why it cannot.

use crate::error::{ParseError, ParseErrorView, Slot, Token};
use crate::grammar::{Action, Connector, Expression, Format, Type};
use crate::text::{split, split_on};
use vstd::prelude::*;
use vstd::string::*;

verus! {

/// The token at position `i`, if the line reaches that far.
pub open spec fn nth(tokens: Seq<Seq<char>>, i: int) -> Option<Seq<char>> {
    if 0 <= i < tokens.len() {
        Some(tokens[i])
    } else {
        None
    }
}

/// The characters of an optional token.
pub open spec fn text_of(slice: Option<&String>) -> Option<Seq<char>> {
    match slice {
        Some(s) => Some(s@),
        None => None,
    }
}

/// A type name at a position.
pub open spec fn typed_at(token: Option<Seq<char>>, line: usize) -> Result<Type, ParseErrorView> {
    match token {
        None => Err(ParseErrorView::MissingToken(Slot::Operand(Token::TYPE), line)),
        Some(s) => match Type::of(s) {
            Some(t) => Ok(t),
            None => Err(ParseErrorView::InvalidToken(Token::TYPE, s, line)),
        },
    }
}

/// A comparison at a position.
pub open spec fn expression_at(token: Option<Seq<char>>, line: usize) -> Result<
    Expression,
    ParseErrorView,
> {
    match token {
        None => Err(ParseErrorView::MissingToken(Slot::Operand(Token::EXPRESSION), line)),
        Some(s) => match Expression::of(s) {
            Some(t) => Ok(t),
            None => Err(ParseErrorView::InvalidToken(Token::EXPRESSION, s, line)),
        },
    }
}

/// A format name at a position.
pub open spec fn format_at(token: Option<Seq<char>>, line: usize) -> Result<
    Format,
    ParseErrorView,
> {
    match token {
        None => Err(ParseErrorView::MissingToken(Slot::Operand(Token::FORMAT), line)),
        Some(s) => match Format::of(s) {
            Some(t) => Ok(t),
            None => Err(ParseErrorView::InvalidToken(Token::FORMAT, s, line)),
        },
    }
}

/// An action name at a position.
pub open spec fn action_at(token: Option<Seq<char>>, line: usize) -> Result<
    Action,
    ParseErrorView,
> {
    match token {
        None => Err(ParseErrorView::MissingToken(Slot::Operand(Token::ACTION), line)),
        Some(s) => match Action::of(s) {
            Some(t) => Ok(t),
            None => Err(ParseErrorView::InvalidToken(Token::ACTION, s, line)),
        },
    }
}

/// The connector `expected` at a position: absent, no connector at all, another
/// connector, or the right one.
pub open spec fn connector_at(token: Option<Seq<char>>, expected: Connector, line: usize) -> Result<
    (),
    ParseErrorView,
> {
    match token {
        None => Err(ParseErrorView::MissingToken(Slot::Keyword(expected), line)),
        Some(s) => match Connector::of(s) {
            None => Err(ParseErrorView::InvalidToken(Token::CONNECTOR, s, line)),
            Some(found) => if found == expected {
                Ok(())
            } else {
                Err(ParseErrorView::WrongConnector(expected, found, line))
            },
        },
    }
}

/// A literal value at a position: any token will do.
pub open spec fn value_at(token: Option<Seq<char>>, line: usize) -> Result<
    Seq<char>,
    ParseErrorView,
> {
    match token {
        None => Err(ParseErrorView::MissingToken(Slot::Operand(Token::VALUE), line)),
        Some(s) => Ok(s),
    }
}

/// A field name at a position: any token will do.
pub open spec fn field_at(token: Option<Seq<char>>, line: usize) -> Result<
    Seq<char>,
    ParseErrorView,
> {
    match token {
        None => Err(ParseErrorView::MissingToken(Slot::Operand(Token::FIELD), line)),
        Some(s) => Ok(s),
    }
}

/// A comma-delimited list of field names at a position.
pub open spec fn fields_at(token: Option<Seq<char>>, line: usize) -> Result<
    Seq<Seq<char>>,
    ParseErrorView,
> {
    match token {
        None => Err(ParseErrorView::MissingToken(Slot::Operand(Token::FIELDS), line)),
        Some(s) => Ok(split(s, ',')),
    }
}

/// The token at position `i` of a tokenized line.
pub fn token_at(tokens: &Vec<String>, i: usize) -> (r: Option<&String>)
    ensures
        text_of(r) == nth(tokens.deep_view(), i as int),
{
    if i < tokens.len() {
        Some(&tokens[i])
    } else {
        None
    }
}

/// Reads a type name.
pub fn parse_typed(slice: Option<&String>, line: usize) -> (r: Result<Type, ParseError>)
    ensures
        match r {
            Ok(t) => typed_at(text_of(slice), line) == Ok::<Type, ParseErrorView>(t),
            Err(e) => typed_at(text_of(slice), line) == Err::<Type, ParseErrorView>(e@),
        },
{
    match slice {
        None => Err(ParseError::MissingToken(Slot::Operand(Token::TYPE), line)),
        Some(s) => match Type::from_str(s.as_str()) {
            Ok(t) => Ok(t),
            Err(found) => Err(ParseError::InvalidToken(Token::TYPE, found, line)),
        },
    }
}

/// Reads a comparison.
pub fn parse_expression(slice: Option<&String>, line: usize) -> (r: Result<
    Expression,
    ParseError,
>)
    ensures
        match r {
            Ok(t) => expression_at(text_of(slice), line) == Ok::<Expression, ParseErrorView>(t),
            Err(e) => expression_at(text_of(slice), line) == Err::<Expression, ParseErrorView>(
                e@,
            ),
        },
{
    match slice {
        None => Err(ParseError::MissingToken(Slot::Operand(Token::EXPRESSION), line)),
        Some(s) => match Expression::from_str(s.as_str()) {
            Ok(t) => Ok(t),
            Err(found) => Err(ParseError::InvalidToken(Token::EXPRESSION, found, line)),
        },
    }
}

/// Reads a format name.
pub fn parse_format(slice: Option<&String>, line: usize) -> (r: Result<Format, ParseError>)
    ensures
        match r {
            Ok(t) => format_at(text_of(slice), line) == Ok::<Format, ParseErrorView>(t),
            Err(e) => format_at(text_of(slice), line) == Err::<Format, ParseErrorView>(e@),
        },
{
    match slice {
        None => Err(ParseError::MissingToken(Slot::Operand(Token::FORMAT), line)),
        Some(s) => match Format::from_str(s.as_str()) {
            Ok(t) => Ok(t),
            Err(found) => Err(ParseError::InvalidToken(Token::FORMAT, found, line)),
        },
    }
}

/// Reads an action name.
pub fn parse_action(slice: Option<&String>, line: usize) -> (r: Result<Action, ParseError>)
    ensures
        match r {
            Ok(t) => action_at(text_of(slice), line) == Ok::<Action, ParseErrorView>(t),
            Err(e) => action_at(text_of(slice), line) == Err::<Action, ParseErrorView>(e@),
        },
{
    match slice {
        None => Err(ParseError::MissingToken(Slot::Operand(Token::ACTION), line)),
        Some(s) => match Action::from_str(s.as_str()) {
            Ok(t) => Ok(t),
            Err(found) => Err(ParseError::InvalidToken(Token::ACTION, found, line)),
        },
    }
}

/// Checks that a position holds the connector `expected`.
pub fn validate_connector(slice: Option<&String>, expected: Connector, line: usize) -> (r: Result<
    (),
    ParseError,
>)
    ensures
        match r {
            Ok(_) => connector_at(text_of(slice), expected, line) == Ok::<(), ParseErrorView>(()),
            Err(e) => connector_at(text_of(slice), expected, line) == Err::<(), ParseErrorView>(
                e@,
            ),
        },
{
    match slice {
        None => Err(ParseError::MissingToken(Slot::Keyword(expected), line)),
        Some(s) => match Connector::from_str(s.as_str()) {
            Err(found) => Err(ParseError::InvalidToken(Token::CONNECTOR, found, line)),
            Ok(found) => if found == expected {
                Ok(())
            } else {
                Err(ParseError::WrongConnector(expected, found, line))
            },
        },
    }
}

/// Reads a literal value.
pub fn parse_value(slice: Option<&String>, line: usize) -> (r: Result<String, ParseError>)
    ensures
        match r {
            Ok(v) => value_at(text_of(slice), line) == Ok::<Seq<char>, ParseErrorView>(v@),
            Err(e) => value_at(text_of(slice), line) == Err::<Seq<char>, ParseErrorView>(e@),
        },
{
    match slice {
        None => Err(ParseError::MissingToken(Slot::Operand(Token::VALUE), line)),
        Some(s) => Ok(s.clone()),
    }
}

/// Reads a field name.
pub fn parse_field(slice: Option<&String>, line: usize) -> (r: Result<String, ParseError>)
    ensures
        match r {
            Ok(v) => field_at(text_of(slice), line) == Ok::<Seq<char>, ParseErrorView>(v@),
            Err(e) => field_at(text_of(slice), line) == Err::<Seq<char>, ParseErrorView>(e@),
        },
{
    match slice {
        None => Err(ParseError::MissingToken(Slot::Operand(Token::FIELD), line)),
        Some(s) => Ok(s.clone()),
    }
}

/// Reads a comma-delimited list of field names.
pub fn parse_fields(slice: Option<&String>, line: usize) -> (r: Result<Vec<String>, ParseError>)
    ensures
        match r {
            Ok(v) => fields_at(text_of(slice), line) == Ok::<Seq<Seq<char>>, ParseErrorView>(
                v.deep_view(),
            ),
            Err(e) => fields_at(text_of(slice), line) == Err::<Seq<Seq<char>>, ParseErrorView>(
                e@,
            ),
        },
{
    match slice {
        None => Err(ParseError::MissingToken(Slot::Operand(Token::FIELDS), line)),
        Some(s) => Ok(split_on(s.as_str(), ',')),
    }
}

} // verus!
