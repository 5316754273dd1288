//! The nine instructions: what each holds, how each is read from the tokens of
//! a line, and how each is written back as a line.

use crate::error::{ParseError, ParseErrorView};
use crate::grammar::{Action, Connector, Expression, Format, Type};
use crate::text::{
    all_free_of, copy_strings, free_of, join, join_with, str_eq, tokenize, tokens,
};
use crate::validators::{
    action_at, connector_at, expression_at, field_at, fields_at, format_at, nth, parse_action,
    parse_expression, parse_field, parse_fields, parse_format, parse_typed, parse_value,
    token_at, typed_at, validate_connector, value_at,
};
use vstd::prelude::*;
use vstd::string::*;

verus! {

/// A list of field names that a line can carry: at least one name, none with a
/// space or a comma in it.
pub open spec fn names_ok(names: Seq<Seq<char>>) -> bool {
    &&& names.len() >= 1
    &&& all_free_of(names, ' ')
    &&& all_free_of(names, ',')
}

/// A single operand that a line can carry: one token, so without a space.
pub open spec fn word_ok(word: Seq<char>) -> bool {
    free_of(word, ' ')
}

/// `ADD`: creates fields of one type and fills them with a default value.
#[derive(Debug)]
pub struct Add {
    /// The names of the fields to create.
    pub fields: Vec<String>,
    /// The declared type of the new fields.
    pub typed: Type,
    /// The value every existing record receives in the new columns.
    pub default: String,
}

/// The operands of `ADD` as plain values.
pub struct AddView {
    pub fields: Seq<Seq<char>>,
    pub typed: Type,
    pub default: Seq<char>,
}

impl View for Add {
    type V = AddView;

    open spec fn view(&self) -> AddView {
        AddView {
            fields: self.fields.deep_view(),
            typed: self.typed,
            default: self.default@,
        }
    }
}

impl AddView {
    /// The operands that stand in `tokens` from position `at` on, read left to
    /// right; the error is that of the first position that fails.
    pub open spec fn at(tokens: Seq<Seq<char>>, at: int, line: usize) -> Result<
        AddView,
        ParseErrorView,
    > {
        match fields_at(nth(tokens, at), line) {
            Err(e) => Err(e),
            Ok(fields) => match connector_at(nth(tokens, at + 1), Connector::TYPED, line) {
                Err(e) => Err(e),
                Ok(_) => match typed_at(nth(tokens, at + 2), line) {
                    Err(e) => Err(e),
                    Ok(typed) => match connector_at(nth(tokens, at + 3), Connector::DEFAULT, line) {
                        Err(e) => Err(e),
                        Ok(_) => match value_at(nth(tokens, at + 4), line) {
                            Err(e) => Err(e),
                            Ok(default) => Ok(AddView { fields, typed, default }),
                        },
                    },
                },
            },
        }
    }

    /// The tokens of the line that writes this instruction.
    pub open spec fn words(self) -> Seq<Seq<char>> {
        seq![
            "ADD"@,
            join(self.fields, ","@),
            "TYPED"@,
            self.typed.keyword(),
            "DEFAULT"@,
            self.default,
        ]
    }

    /// The line that writes this instruction.
    pub open spec fn line(self) -> Seq<char> {
        join(self.words(), " "@)
    }

    /// Whether a line can carry these operands.
    pub open spec fn wf(self) -> bool {
        &&& names_ok(self.fields)
        &&& word_ok(self.default)
    }
}

impl Add {
    /// Reads the operands that stand in `tokens` from position `at` on.
    fn build_at(tokens: &Vec<String>, at: usize, line: usize) -> (r: Result<
        Add,
        ParseError,
    >)
        requires
            at <= 1,
        ensures
            match r {
                Ok(built) => AddView::at(tokens.deep_view(), at as int, line) == Ok::<
                    AddView,
                    ParseErrorView,
                >(built@),
                Err(e) => AddView::at(tokens.deep_view(), at as int, line) == Err::<
                    AddView,
                    ParseErrorView,
                >(e@),
            },
    {
        let fields = parse_fields(token_at(tokens, at), line)?;
        validate_connector(token_at(tokens, at + 1), Connector::TYPED, line)?;
        let typed = parse_typed(token_at(tokens, at + 2), line)?;
        validate_connector(token_at(tokens, at + 3), Connector::DEFAULT, line)?;
        let default = parse_value(token_at(tokens, at + 4), line)?;
        Ok(Add { fields, typed, default })
    }

    /// Reads the instruction from the tokens of its line, the keyword `ADD` first.
    pub fn from_tokens(tokens: &Vec<String>, line: usize) -> (r: Result<Add, ParseError>)
        ensures
            match r {
                Ok(built) => AddView::at(tokens.deep_view(), 1, line) == Ok::<
                    AddView,
                    ParseErrorView,
                >(built@),
                Err(e) => AddView::at(tokens.deep_view(), 1, line) == Err::<
                    AddView,
                    ParseErrorView,
                >(e@),
            },
    {
        Add::build_at(tokens, 1, line)
    }

    /// Reads the instruction from the text that follows the keyword `ADD`.
    pub fn from_str(s: &str, line: usize) -> (r: Result<Add, ParseError>)
        ensures
            match r {
                Ok(built) => AddView::at(tokens(s@), 0, line) == Ok::<
                    AddView,
                    ParseErrorView,
                >(built@),
                Err(e) => AddView::at(tokens(s@), 0, line) == Err::<
                    AddView,
                    ParseErrorView,
                >(e@),
            },
    {
        let words = tokenize(s);
        Add::build_at(&words, 0, line)
    }

    /// Writes the instruction as a line.
    pub fn to_string(&self) -> (r: String)
        ensures
            r@ == self@.line(),
    {
        let mut words: Vec<String> = Vec::new();
        words.push("ADD".to_owned());
        words.push(join_with(&self.fields, ","));
        words.push("TYPED".to_owned());
        words.push(self.typed.to_string());
        words.push("DEFAULT".to_owned());
        words.push(self.default.clone());
        assert(words.deep_view() =~= self@.words());
        join_with(&words, " ")
    }

    /// A copy with the same operands.
    pub fn duplicate(&self) -> (r: Add)
        ensures
            r@ == self@,
    {
        Add {
            fields: copy_strings(&self.fields),
            typed: self.typed,
            default: self.default.clone(),
        }
    }
}

/// `ALIAS`: gives a field a second name under which it can be addressed.
#[derive(Debug)]
pub struct Alias {
    /// The field that gains a name.
    pub field: String,
    /// The additional name.
    pub to: String,
}

/// The operands of `ALIAS` as plain values.
pub struct AliasView {
    pub field: Seq<char>,
    pub to: Seq<char>,
}

impl View for Alias {
    type V = AliasView;

    open spec fn view(&self) -> AliasView {
        AliasView {
            field: self.field@,
            to: self.to@,
        }
    }
}

impl AliasView {
    /// The operands that stand in `tokens` from position `at` on, read left to
    /// right; the error is that of the first position that fails.
    pub open spec fn at(tokens: Seq<Seq<char>>, at: int, line: usize) -> Result<
        AliasView,
        ParseErrorView,
    > {
        match field_at(nth(tokens, at), line) {
            Err(e) => Err(e),
            Ok(field) => match connector_at(nth(tokens, at + 1), Connector::TO, line) {
                Err(e) => Err(e),
                Ok(_) => match field_at(nth(tokens, at + 2), line) {
                    Err(e) => Err(e),
                    Ok(to) => Ok(AliasView { field, to }),
                },
            },
        }
    }

    /// The tokens of the line that writes this instruction.
    pub open spec fn words(self) -> Seq<Seq<char>> {
        seq![
            "ALIAS"@,
            self.field,
            "TO"@,
            self.to,
        ]
    }

    /// The line that writes this instruction.
    pub open spec fn line(self) -> Seq<char> {
        join(self.words(), " "@)
    }

    /// Whether a line can carry these operands.
    pub open spec fn wf(self) -> bool {
        &&& word_ok(self.field)
        &&& word_ok(self.to)
    }
}

impl Alias {
    /// Reads the operands that stand in `tokens` from position `at` on.
    fn build_at(tokens: &Vec<String>, at: usize, line: usize) -> (r: Result<
        Alias,
        ParseError,
    >)
        requires
            at <= 1,
        ensures
            match r {
                Ok(built) => AliasView::at(tokens.deep_view(), at as int, line) == Ok::<
                    AliasView,
                    ParseErrorView,
                >(built@),
                Err(e) => AliasView::at(tokens.deep_view(), at as int, line) == Err::<
                    AliasView,
                    ParseErrorView,
                >(e@),
            },
    {
        let field = parse_field(token_at(tokens, at), line)?;
        validate_connector(token_at(tokens, at + 1), Connector::TO, line)?;
        let to = parse_field(token_at(tokens, at + 2), line)?;
        Ok(Alias { field, to })
    }

    /// Reads the instruction from the tokens of its line, the keyword `ALIAS` first.
    pub fn from_tokens(tokens: &Vec<String>, line: usize) -> (r: Result<Alias, ParseError>)
        ensures
            match r {
                Ok(built) => AliasView::at(tokens.deep_view(), 1, line) == Ok::<
                    AliasView,
                    ParseErrorView,
                >(built@),
                Err(e) => AliasView::at(tokens.deep_view(), 1, line) == Err::<
                    AliasView,
                    ParseErrorView,
                >(e@),
            },
    {
        Alias::build_at(tokens, 1, line)
    }

    /// Reads the instruction from the text that follows the keyword `ALIAS`.
    pub fn from_str(s: &str, line: usize) -> (r: Result<Alias, ParseError>)
        ensures
            match r {
                Ok(built) => AliasView::at(tokens(s@), 0, line) == Ok::<
                    AliasView,
                    ParseErrorView,
                >(built@),
                Err(e) => AliasView::at(tokens(s@), 0, line) == Err::<
                    AliasView,
                    ParseErrorView,
                >(e@),
            },
    {
        let words = tokenize(s);
        Alias::build_at(&words, 0, line)
    }

    /// Writes the instruction as a line.
    pub fn to_string(&self) -> (r: String)
        ensures
            r@ == self@.line(),
    {
        let mut words: Vec<String> = Vec::new();
        words.push("ALIAS".to_owned());
        words.push(self.field.clone());
        words.push("TO".to_owned());
        words.push(self.to.clone());
        assert(words.deep_view() =~= self@.words());
        join_with(&words, " ")
    }

    /// A copy with the same operands.
    pub fn duplicate(&self) -> (r: Alias)
        ensures
            r@ == self@,
    {
        Alias {
            field: self.field.clone(),
            to: self.to.clone(),
        }
    }
}

/// `COERCE`: declares fields to be of a type and replaces the values that do not read as that type.
#[derive(Debug)]
pub struct Coerce {
    /// The fields to coerce.
    pub fields: Vec<String>,
    /// The type the fields are declared to have.
    pub typed: Type,
    /// The value that replaces one that does not read as the type.
    pub rescue: String,
}

/// The operands of `COERCE` as plain values.
pub struct CoerceView {
    pub fields: Seq<Seq<char>>,
    pub typed: Type,
    pub rescue: Seq<char>,
}

impl View for Coerce {
    type V = CoerceView;

    open spec fn view(&self) -> CoerceView {
        CoerceView {
            fields: self.fields.deep_view(),
            typed: self.typed,
            rescue: self.rescue@,
        }
    }
}

impl CoerceView {
    /// The operands that stand in `tokens` from position `at` on, read left to
    /// right; the error is that of the first position that fails.
    pub open spec fn at(tokens: Seq<Seq<char>>, at: int, line: usize) -> Result<
        CoerceView,
        ParseErrorView,
    > {
        match fields_at(nth(tokens, at), line) {
            Err(e) => Err(e),
            Ok(fields) => match connector_at(nth(tokens, at + 1), Connector::TYPED, line) {
                Err(e) => Err(e),
                Ok(_) => match typed_at(nth(tokens, at + 2), line) {
                    Err(e) => Err(e),
                    Ok(typed) => match connector_at(nth(tokens, at + 3), Connector::RESCUE, line) {
                        Err(e) => Err(e),
                        Ok(_) => match value_at(nth(tokens, at + 4), line) {
                            Err(e) => Err(e),
                            Ok(rescue) => Ok(CoerceView { fields, typed, rescue }),
                        },
                    },
                },
            },
        }
    }

    /// The tokens of the line that writes this instruction.
    pub open spec fn words(self) -> Seq<Seq<char>> {
        seq![
            "COERCE"@,
            join(self.fields, ","@),
            "TYPED"@,
            self.typed.keyword(),
            "RESCUE"@,
            self.rescue,
        ]
    }

    /// The line that writes this instruction.
    pub open spec fn line(self) -> Seq<char> {
        join(self.words(), " "@)
    }

    /// Whether a line can carry these operands.
    pub open spec fn wf(self) -> bool {
        &&& names_ok(self.fields)
        &&& word_ok(self.rescue)
    }
}

impl Coerce {
    /// Reads the operands that stand in `tokens` from position `at` on.
    fn build_at(tokens: &Vec<String>, at: usize, line: usize) -> (r: Result<
        Coerce,
        ParseError,
    >)
        requires
            at <= 1,
        ensures
            match r {
                Ok(built) => CoerceView::at(tokens.deep_view(), at as int, line) == Ok::<
                    CoerceView,
                    ParseErrorView,
                >(built@),
                Err(e) => CoerceView::at(tokens.deep_view(), at as int, line) == Err::<
                    CoerceView,
                    ParseErrorView,
                >(e@),
            },
    {
        let fields = parse_fields(token_at(tokens, at), line)?;
        validate_connector(token_at(tokens, at + 1), Connector::TYPED, line)?;
        let typed = parse_typed(token_at(tokens, at + 2), line)?;
        validate_connector(token_at(tokens, at + 3), Connector::RESCUE, line)?;
        let rescue = parse_value(token_at(tokens, at + 4), line)?;
        Ok(Coerce { fields, typed, rescue })
    }

    /// Reads the instruction from the tokens of its line, the keyword `COERCE` first.
    pub fn from_tokens(tokens: &Vec<String>, line: usize) -> (r: Result<Coerce, ParseError>)
        ensures
            match r {
                Ok(built) => CoerceView::at(tokens.deep_view(), 1, line) == Ok::<
                    CoerceView,
                    ParseErrorView,
                >(built@),
                Err(e) => CoerceView::at(tokens.deep_view(), 1, line) == Err::<
                    CoerceView,
                    ParseErrorView,
                >(e@),
            },
    {
        Coerce::build_at(tokens, 1, line)
    }

    /// Reads the instruction from the text that follows the keyword `COERCE`.
    pub fn from_str(s: &str, line: usize) -> (r: Result<Coerce, ParseError>)
        ensures
            match r {
                Ok(built) => CoerceView::at(tokens(s@), 0, line) == Ok::<
                    CoerceView,
                    ParseErrorView,
                >(built@),
                Err(e) => CoerceView::at(tokens(s@), 0, line) == Err::<
                    CoerceView,
                    ParseErrorView,
                >(e@),
            },
    {
        let words = tokenize(s);
        Coerce::build_at(&words, 0, line)
    }

    /// Writes the instruction as a line.
    pub fn to_string(&self) -> (r: String)
        ensures
            r@ == self@.line(),
    {
        let mut words: Vec<String> = Vec::new();
        words.push("COERCE".to_owned());
        words.push(join_with(&self.fields, ","));
        words.push("TYPED".to_owned());
        words.push(self.typed.to_string());
        words.push("RESCUE".to_owned());
        words.push(self.rescue.clone());
        assert(words.deep_view() =~= self@.words());
        join_with(&words, " ")
    }

    /// A copy with the same operands.
    pub fn duplicate(&self) -> (r: Coerce)
        ensures
            r@ == self@,
    {
        Coerce {
            fields: copy_strings(&self.fields),
            typed: self.typed,
            rescue: self.rescue.clone(),
        }
    }
}

/// `DISTINCT`: keeps the first record of every combination of values in the listed fields.
#[derive(Debug)]
pub struct Distinct {
    /// The fields whose values tell records apart.
    pub fields: Vec<String>,
}

/// The operands of `DISTINCT` as plain values.
pub struct DistinctView {
    pub fields: Seq<Seq<char>>,
}

impl View for Distinct {
    type V = DistinctView;

    open spec fn view(&self) -> DistinctView {
        DistinctView {
            fields: self.fields.deep_view(),
        }
    }
}

impl DistinctView {
    /// The operands that stand in `tokens` from position `at` on, read left to
    /// right; the error is that of the first position that fails.
    pub open spec fn at(tokens: Seq<Seq<char>>, at: int, line: usize) -> Result<
        DistinctView,
        ParseErrorView,
    > {
        match fields_at(nth(tokens, at), line) {
            Err(e) => Err(e),
            Ok(fields) => Ok(DistinctView { fields }),
        }
    }

    /// The tokens of the line that writes this instruction.
    pub open spec fn words(self) -> Seq<Seq<char>> {
        seq![
            "DISTINCT"@,
            join(self.fields, ","@),
        ]
    }

    /// The line that writes this instruction.
    pub open spec fn line(self) -> Seq<char> {
        join(self.words(), " "@)
    }

    /// Whether a line can carry these operands.
    pub open spec fn wf(self) -> bool {
        &&& names_ok(self.fields)
    }
}

impl Distinct {
    /// Reads the operands that stand in `tokens` from position `at` on.
    fn build_at(tokens: &Vec<String>, at: usize, line: usize) -> (r: Result<
        Distinct,
        ParseError,
    >)
        requires
            at <= 1,
        ensures
            match r {
                Ok(built) => DistinctView::at(tokens.deep_view(), at as int, line) == Ok::<
                    DistinctView,
                    ParseErrorView,
                >(built@),
                Err(e) => DistinctView::at(tokens.deep_view(), at as int, line) == Err::<
                    DistinctView,
                    ParseErrorView,
                >(e@),
            },
    {
        let fields = parse_fields(token_at(tokens, at), line)?;
        Ok(Distinct { fields })
    }

    /// Reads the instruction from the tokens of its line, the keyword `DISTINCT` first.
    pub fn from_tokens(tokens: &Vec<String>, line: usize) -> (r: Result<Distinct, ParseError>)
        ensures
            match r {
                Ok(built) => DistinctView::at(tokens.deep_view(), 1, line) == Ok::<
                    DistinctView,
                    ParseErrorView,
                >(built@),
                Err(e) => DistinctView::at(tokens.deep_view(), 1, line) == Err::<
                    DistinctView,
                    ParseErrorView,
                >(e@),
            },
    {
        Distinct::build_at(tokens, 1, line)
    }

    /// Reads the instruction from the text that follows the keyword `DISTINCT`.
    pub fn from_str(s: &str, line: usize) -> (r: Result<Distinct, ParseError>)
        ensures
            match r {
                Ok(built) => DistinctView::at(tokens(s@), 0, line) == Ok::<
                    DistinctView,
                    ParseErrorView,
                >(built@),
                Err(e) => DistinctView::at(tokens(s@), 0, line) == Err::<
                    DistinctView,
                    ParseErrorView,
                >(e@),
            },
    {
        let words = tokenize(s);
        Distinct::build_at(&words, 0, line)
    }

    /// Writes the instruction as a line.
    pub fn to_string(&self) -> (r: String)
        ensures
            r@ == self@.line(),
    {
        let mut words: Vec<String> = Vec::new();
        words.push("DISTINCT".to_owned());
        words.push(join_with(&self.fields, ","));
        assert(words.deep_view() =~= self@.words());
        join_with(&words, " ")
    }

    /// A copy with the same operands.
    pub fn duplicate(&self) -> (r: Distinct)
        ensures
            r@ == self@,
    {
        Distinct {
            fields: copy_strings(&self.fields),
        }
    }
}

/// `FILTER`: discards the records whose values fail a comparison with a literal.
#[derive(Debug)]
pub struct Filter {
    /// The fields that are compared.
    pub fields: Vec<String>,
    /// The comparison.
    pub expression: Expression,
    /// The literal that stored values are compared with.
    pub value: String,
}

/// The operands of `FILTER` as plain values.
pub struct FilterView {
    pub fields: Seq<Seq<char>>,
    pub expression: Expression,
    pub value: Seq<char>,
}

impl View for Filter {
    type V = FilterView;

    open spec fn view(&self) -> FilterView {
        FilterView {
            fields: self.fields.deep_view(),
            expression: self.expression,
            value: self.value@,
        }
    }
}

impl FilterView {
    /// The operands that stand in `tokens` from position `at` on, read left to
    /// right; the error is that of the first position that fails.
    pub open spec fn at(tokens: Seq<Seq<char>>, at: int, line: usize) -> Result<
        FilterView,
        ParseErrorView,
    > {
        match fields_at(nth(tokens, at), line) {
            Err(e) => Err(e),
            Ok(fields) => match connector_at(nth(tokens, at + 1), Connector::MATCHING, line) {
                Err(e) => Err(e),
                Ok(_) => match expression_at(nth(tokens, at + 2), line) {
                    Err(e) => Err(e),
                    Ok(expression) => match value_at(nth(tokens, at + 3), line) {
                        Err(e) => Err(e),
                        Ok(value) => Ok(FilterView { fields, expression, value }),
                    },
                },
            },
        }
    }

    /// The tokens of the line that writes this instruction.
    pub open spec fn words(self) -> Seq<Seq<char>> {
        seq![
            "FILTER"@,
            join(self.fields, ","@),
            "MATCHING"@,
            self.expression.keyword(),
            self.value,
        ]
    }

    /// The line that writes this instruction.
    pub open spec fn line(self) -> Seq<char> {
        join(self.words(), " "@)
    }

    /// Whether a line can carry these operands.
    pub open spec fn wf(self) -> bool {
        &&& names_ok(self.fields)
        &&& word_ok(self.value)
    }
}

impl Filter {
    /// Reads the operands that stand in `tokens` from position `at` on.
    fn build_at(tokens: &Vec<String>, at: usize, line: usize) -> (r: Result<
        Filter,
        ParseError,
    >)
        requires
            at <= 1,
        ensures
            match r {
                Ok(built) => FilterView::at(tokens.deep_view(), at as int, line) == Ok::<
                    FilterView,
                    ParseErrorView,
                >(built@),
                Err(e) => FilterView::at(tokens.deep_view(), at as int, line) == Err::<
                    FilterView,
                    ParseErrorView,
                >(e@),
            },
    {
        let fields = parse_fields(token_at(tokens, at), line)?;
        validate_connector(token_at(tokens, at + 1), Connector::MATCHING, line)?;
        let expression = parse_expression(token_at(tokens, at + 2), line)?;
        let value = parse_value(token_at(tokens, at + 3), line)?;
        Ok(Filter { fields, expression, value })
    }

    /// Reads the instruction from the tokens of its line, the keyword `FILTER` first.
    pub fn from_tokens(tokens: &Vec<String>, line: usize) -> (r: Result<Filter, ParseError>)
        ensures
            match r {
                Ok(built) => FilterView::at(tokens.deep_view(), 1, line) == Ok::<
                    FilterView,
                    ParseErrorView,
                >(built@),
                Err(e) => FilterView::at(tokens.deep_view(), 1, line) == Err::<
                    FilterView,
                    ParseErrorView,
                >(e@),
            },
    {
        Filter::build_at(tokens, 1, line)
    }

    /// Reads the instruction from the text that follows the keyword `FILTER`.
    pub fn from_str(s: &str, line: usize) -> (r: Result<Filter, ParseError>)
        ensures
            match r {
                Ok(built) => FilterView::at(tokens(s@), 0, line) == Ok::<
                    FilterView,
                    ParseErrorView,
                >(built@),
                Err(e) => FilterView::at(tokens(s@), 0, line) == Err::<
                    FilterView,
                    ParseErrorView,
                >(e@),
            },
    {
        let words = tokenize(s);
        Filter::build_at(&words, 0, line)
    }

    /// Writes the instruction as a line.
    pub fn to_string(&self) -> (r: String)
        ensures
            r@ == self@.line(),
    {
        let mut words: Vec<String> = Vec::new();
        words.push("FILTER".to_owned());
        words.push(join_with(&self.fields, ","));
        words.push("MATCHING".to_owned());
        words.push(self.expression.to_string());
        words.push(self.value.clone());
        assert(words.deep_view() =~= self@.words());
        join_with(&words, " ")
    }

    /// A copy with the same operands.
    pub fn duplicate(&self) -> (r: Filter)
        ensures
            r@ == self@,
    {
        Filter {
            fields: copy_strings(&self.fields),
            expression: self.expression,
            value: self.value.clone(),
        }
    }
}

/// `IGNORE`: drops the listed fields and their columns.
#[derive(Debug)]
pub struct Ignore {
    /// The fields to drop.
    pub fields: Vec<String>,
}

/// The operands of `IGNORE` as plain values.
pub struct IgnoreView {
    pub fields: Seq<Seq<char>>,
}

impl View for Ignore {
    type V = IgnoreView;

    open spec fn view(&self) -> IgnoreView {
        IgnoreView {
            fields: self.fields.deep_view(),
        }
    }
}

impl IgnoreView {
    /// The operands that stand in `tokens` from position `at` on, read left to
    /// right; the error is that of the first position that fails.
    pub open spec fn at(tokens: Seq<Seq<char>>, at: int, line: usize) -> Result<
        IgnoreView,
        ParseErrorView,
    > {
        match fields_at(nth(tokens, at), line) {
            Err(e) => Err(e),
            Ok(fields) => Ok(IgnoreView { fields }),
        }
    }

    /// The tokens of the line that writes this instruction.
    pub open spec fn words(self) -> Seq<Seq<char>> {
        seq![
            "IGNORE"@,
            join(self.fields, ","@),
        ]
    }

    /// The line that writes this instruction.
    pub open spec fn line(self) -> Seq<char> {
        join(self.words(), " "@)
    }

    /// Whether a line can carry these operands.
    pub open spec fn wf(self) -> bool {
        &&& names_ok(self.fields)
    }
}

impl Ignore {
    /// Reads the operands that stand in `tokens` from position `at` on.
    fn build_at(tokens: &Vec<String>, at: usize, line: usize) -> (r: Result<
        Ignore,
        ParseError,
    >)
        requires
            at <= 1,
        ensures
            match r {
                Ok(built) => IgnoreView::at(tokens.deep_view(), at as int, line) == Ok::<
                    IgnoreView,
                    ParseErrorView,
                >(built@),
                Err(e) => IgnoreView::at(tokens.deep_view(), at as int, line) == Err::<
                    IgnoreView,
                    ParseErrorView,
                >(e@),
            },
    {
        let fields = parse_fields(token_at(tokens, at), line)?;
        Ok(Ignore { fields })
    }

    /// Reads the instruction from the tokens of its line, the keyword `IGNORE` first.
    pub fn from_tokens(tokens: &Vec<String>, line: usize) -> (r: Result<Ignore, ParseError>)
        ensures
            match r {
                Ok(built) => IgnoreView::at(tokens.deep_view(), 1, line) == Ok::<
                    IgnoreView,
                    ParseErrorView,
                >(built@),
                Err(e) => IgnoreView::at(tokens.deep_view(), 1, line) == Err::<
                    IgnoreView,
                    ParseErrorView,
                >(e@),
            },
    {
        Ignore::build_at(tokens, 1, line)
    }

    /// Reads the instruction from the text that follows the keyword `IGNORE`.
    pub fn from_str(s: &str, line: usize) -> (r: Result<Ignore, ParseError>)
        ensures
            match r {
                Ok(built) => IgnoreView::at(tokens(s@), 0, line) == Ok::<
                    IgnoreView,
                    ParseErrorView,
                >(built@),
                Err(e) => IgnoreView::at(tokens(s@), 0, line) == Err::<
                    IgnoreView,
                    ParseErrorView,
                >(e@),
            },
    {
        let words = tokenize(s);
        Ignore::build_at(&words, 0, line)
    }

    /// Writes the instruction as a line.
    pub fn to_string(&self) -> (r: String)
        ensures
            r@ == self@.line(),
    {
        let mut words: Vec<String> = Vec::new();
        words.push("IGNORE".to_owned());
        words.push(join_with(&self.fields, ","));
        assert(words.deep_view() =~= self@.words());
        join_with(&words, " ")
    }

    /// A copy with the same operands.
    pub fn duplicate(&self) -> (r: Ignore)
        ensures
            r@ == self@,
    {
        Ignore {
            fields: copy_strings(&self.fields),
        }
    }
}

/// `MERGE`: concatenates the values of the listed fields into one new field.
#[derive(Debug)]
pub struct Merge {
    /// The fields that are merged, in the order of concatenation.
    pub fields: Vec<String>,
    /// The name of the field that receives the merged values.
    pub to: String,
}

/// The operands of `MERGE` as plain values.
pub struct MergeView {
    pub fields: Seq<Seq<char>>,
    pub to: Seq<char>,
}

impl View for Merge {
    type V = MergeView;

    open spec fn view(&self) -> MergeView {
        MergeView {
            fields: self.fields.deep_view(),
            to: self.to@,
        }
    }
}

impl MergeView {
    /// The operands that stand in `tokens` from position `at` on, read left to
    /// right; the error is that of the first position that fails.
    pub open spec fn at(tokens: Seq<Seq<char>>, at: int, line: usize) -> Result<
        MergeView,
        ParseErrorView,
    > {
        match fields_at(nth(tokens, at), line) {
            Err(e) => Err(e),
            Ok(fields) => match connector_at(nth(tokens, at + 1), Connector::TO, line) {
                Err(e) => Err(e),
                Ok(_) => match field_at(nth(tokens, at + 2), line) {
                    Err(e) => Err(e),
                    Ok(to) => Ok(MergeView { fields, to }),
                },
            },
        }
    }

    /// The tokens of the line that writes this instruction.
    pub open spec fn words(self) -> Seq<Seq<char>> {
        seq![
            "MERGE"@,
            join(self.fields, ","@),
            "TO"@,
            self.to,
        ]
    }

    /// The line that writes this instruction.
    pub open spec fn line(self) -> Seq<char> {
        join(self.words(), " "@)
    }

    /// Whether a line can carry these operands.
    pub open spec fn wf(self) -> bool {
        &&& names_ok(self.fields)
        &&& word_ok(self.to)
    }
}

impl Merge {
    /// Reads the operands that stand in `tokens` from position `at` on.
    fn build_at(tokens: &Vec<String>, at: usize, line: usize) -> (r: Result<
        Merge,
        ParseError,
    >)
        requires
            at <= 1,
        ensures
            match r {
                Ok(built) => MergeView::at(tokens.deep_view(), at as int, line) == Ok::<
                    MergeView,
                    ParseErrorView,
                >(built@),
                Err(e) => MergeView::at(tokens.deep_view(), at as int, line) == Err::<
                    MergeView,
                    ParseErrorView,
                >(e@),
            },
    {
        let fields = parse_fields(token_at(tokens, at), line)?;
        validate_connector(token_at(tokens, at + 1), Connector::TO, line)?;
        let to = parse_field(token_at(tokens, at + 2), line)?;
        Ok(Merge { fields, to })
    }

    /// Reads the instruction from the tokens of its line, the keyword `MERGE` first.
    pub fn from_tokens(tokens: &Vec<String>, line: usize) -> (r: Result<Merge, ParseError>)
        ensures
            match r {
                Ok(built) => MergeView::at(tokens.deep_view(), 1, line) == Ok::<
                    MergeView,
                    ParseErrorView,
                >(built@),
                Err(e) => MergeView::at(tokens.deep_view(), 1, line) == Err::<
                    MergeView,
                    ParseErrorView,
                >(e@),
            },
    {
        Merge::build_at(tokens, 1, line)
    }

    /// Reads the instruction from the text that follows the keyword `MERGE`.
    pub fn from_str(s: &str, line: usize) -> (r: Result<Merge, ParseError>)
        ensures
            match r {
                Ok(built) => MergeView::at(tokens(s@), 0, line) == Ok::<
                    MergeView,
                    ParseErrorView,
                >(built@),
                Err(e) => MergeView::at(tokens(s@), 0, line) == Err::<
                    MergeView,
                    ParseErrorView,
                >(e@),
            },
    {
        let words = tokenize(s);
        Merge::build_at(&words, 0, line)
    }

    /// Writes the instruction as a line.
    pub fn to_string(&self) -> (r: String)
        ensures
            r@ == self@.line(),
    {
        let mut words: Vec<String> = Vec::new();
        words.push("MERGE".to_owned());
        words.push(join_with(&self.fields, ","));
        words.push("TO".to_owned());
        words.push(self.to.clone());
        assert(words.deep_view() =~= self@.words());
        join_with(&words, " ")
    }

    /// A copy with the same operands.
    pub fn duplicate(&self) -> (r: Merge)
        ensures
            r@ == self@,
    {
        Merge {
            fields: copy_strings(&self.fields),
            to: self.to.clone(),
        }
    }
}

/// `RENAME`: replaces the name of a field.
#[derive(Debug)]
pub struct Rename {
    /// The field that is renamed.
    pub field: String,
    /// The new name.
    pub to: String,
}

/// The operands of `RENAME` as plain values.
pub struct RenameView {
    pub field: Seq<char>,
    pub to: Seq<char>,
}

impl View for Rename {
    type V = RenameView;

    open spec fn view(&self) -> RenameView {
        RenameView {
            field: self.field@,
            to: self.to@,
        }
    }
}

impl RenameView {
    /// The operands that stand in `tokens` from position `at` on, read left to
    /// right; the error is that of the first position that fails.
    pub open spec fn at(tokens: Seq<Seq<char>>, at: int, line: usize) -> Result<
        RenameView,
        ParseErrorView,
    > {
        match field_at(nth(tokens, at), line) {
            Err(e) => Err(e),
            Ok(field) => match connector_at(nth(tokens, at + 1), Connector::TO, line) {
                Err(e) => Err(e),
                Ok(_) => match field_at(nth(tokens, at + 2), line) {
                    Err(e) => Err(e),
                    Ok(to) => Ok(RenameView { field, to }),
                },
            },
        }
    }

    /// The tokens of the line that writes this instruction.
    pub open spec fn words(self) -> Seq<Seq<char>> {
        seq![
            "RENAME"@,
            self.field,
            "TO"@,
            self.to,
        ]
    }

    /// The line that writes this instruction.
    pub open spec fn line(self) -> Seq<char> {
        join(self.words(), " "@)
    }

    /// Whether a line can carry these operands.
    pub open spec fn wf(self) -> bool {
        &&& word_ok(self.field)
        &&& word_ok(self.to)
    }
}

impl Rename {
    /// Reads the operands that stand in `tokens` from position `at` on.
    fn build_at(tokens: &Vec<String>, at: usize, line: usize) -> (r: Result<
        Rename,
        ParseError,
    >)
        requires
            at <= 1,
        ensures
            match r {
                Ok(built) => RenameView::at(tokens.deep_view(), at as int, line) == Ok::<
                    RenameView,
                    ParseErrorView,
                >(built@),
                Err(e) => RenameView::at(tokens.deep_view(), at as int, line) == Err::<
                    RenameView,
                    ParseErrorView,
                >(e@),
            },
    {
        let field = parse_field(token_at(tokens, at), line)?;
        validate_connector(token_at(tokens, at + 1), Connector::TO, line)?;
        let to = parse_field(token_at(tokens, at + 2), line)?;
        Ok(Rename { field, to })
    }

    /// Reads the instruction from the tokens of its line, the keyword `RENAME` first.
    pub fn from_tokens(tokens: &Vec<String>, line: usize) -> (r: Result<Rename, ParseError>)
        ensures
            match r {
                Ok(built) => RenameView::at(tokens.deep_view(), 1, line) == Ok::<
                    RenameView,
                    ParseErrorView,
                >(built@),
                Err(e) => RenameView::at(tokens.deep_view(), 1, line) == Err::<
                    RenameView,
                    ParseErrorView,
                >(e@),
            },
    {
        Rename::build_at(tokens, 1, line)
    }

    /// Reads the instruction from the text that follows the keyword `RENAME`.
    pub fn from_str(s: &str, line: usize) -> (r: Result<Rename, ParseError>)
        ensures
            match r {
                Ok(built) => RenameView::at(tokens(s@), 0, line) == Ok::<
                    RenameView,
                    ParseErrorView,
                >(built@),
                Err(e) => RenameView::at(tokens(s@), 0, line) == Err::<
                    RenameView,
                    ParseErrorView,
                >(e@),
            },
    {
        let words = tokenize(s);
        Rename::build_at(&words, 0, line)
    }

    /// Writes the instruction as a line.
    pub fn to_string(&self) -> (r: String)
        ensures
            r@ == self@.line(),
    {
        let mut words: Vec<String> = Vec::new();
        words.push("RENAME".to_owned());
        words.push(self.field.clone());
        words.push("TO".to_owned());
        words.push(self.to.clone());
        assert(words.deep_view() =~= self@.words());
        join_with(&words, " ")
    }

    /// A copy with the same operands.
    pub fn duplicate(&self) -> (r: Rename)
        ensures
            r@ == self@,
    {
        Rename {
            field: self.field.clone(),
            to: self.to.clone(),
        }
    }
}

/// `VALIDATE`: checks the values of a field against a format.
#[derive(Debug)]
pub struct Validate {
    /// The field whose values are checked.
    pub field: String,
    /// The format the values must have.
    pub format: Format,
    /// What happens to a record whose value fails.
    pub action: Action,
}

/// The operands of `VALIDATE` as plain values.
pub struct ValidateView {
    pub field: Seq<char>,
    pub format: Format,
    pub action: Action,
}

impl View for Validate {
    type V = ValidateView;

    open spec fn view(&self) -> ValidateView {
        ValidateView {
            field: self.field@,
            format: self.format,
            action: self.action,
        }
    }
}

impl ValidateView {
    /// The operands that stand in `tokens` from position `at` on, read left to
    /// right; the error is that of the first position that fails.
    pub open spec fn at(tokens: Seq<Seq<char>>, at: int, line: usize) -> Result<
        ValidateView,
        ParseErrorView,
    > {
        match field_at(nth(tokens, at), line) {
            Err(e) => Err(e),
            Ok(field) => match connector_at(nth(tokens, at + 1), Connector::MATCHING, line) {
                Err(e) => Err(e),
                Ok(_) => match format_at(nth(tokens, at + 2), line) {
                    Err(e) => Err(e),
                    Ok(format) => match connector_at(nth(tokens, at + 3), Connector::OR, line) {
                        Err(e) => Err(e),
                        Ok(_) => match action_at(nth(tokens, at + 4), line) {
                            Err(e) => Err(e),
                            Ok(action) => Ok(ValidateView { field, format, action }),
                        },
                    },
                },
            },
        }
    }

    /// The tokens of the line that writes this instruction.
    pub open spec fn words(self) -> Seq<Seq<char>> {
        seq![
            "VALIDATE"@,
            self.field,
            "MATCHING"@,
            self.format.keyword(),
            "OR"@,
            self.action.keyword(),
        ]
    }

    /// The line that writes this instruction.
    pub open spec fn line(self) -> Seq<char> {
        join(self.words(), " "@)
    }

    /// Whether a line can carry these operands.
    pub open spec fn wf(self) -> bool {
        &&& word_ok(self.field)
    }
}

impl Validate {
    /// Reads the operands that stand in `tokens` from position `at` on.
    fn build_at(tokens: &Vec<String>, at: usize, line: usize) -> (r: Result<
        Validate,
        ParseError,
    >)
        requires
            at <= 1,
        ensures
            match r {
                Ok(built) => ValidateView::at(tokens.deep_view(), at as int, line) == Ok::<
                    ValidateView,
                    ParseErrorView,
                >(built@),
                Err(e) => ValidateView::at(tokens.deep_view(), at as int, line) == Err::<
                    ValidateView,
                    ParseErrorView,
                >(e@),
            },
    {
        let field = parse_field(token_at(tokens, at), line)?;
        validate_connector(token_at(tokens, at + 1), Connector::MATCHING, line)?;
        let format = parse_format(token_at(tokens, at + 2), line)?;
        validate_connector(token_at(tokens, at + 3), Connector::OR, line)?;
        let action = parse_action(token_at(tokens, at + 4), line)?;
        Ok(Validate { field, format, action })
    }

    /// Reads the instruction from the tokens of its line, the keyword `VALIDATE` first.
    pub fn from_tokens(tokens: &Vec<String>, line: usize) -> (r: Result<Validate, ParseError>)
        ensures
            match r {
                Ok(built) => ValidateView::at(tokens.deep_view(), 1, line) == Ok::<
                    ValidateView,
                    ParseErrorView,
                >(built@),
                Err(e) => ValidateView::at(tokens.deep_view(), 1, line) == Err::<
                    ValidateView,
                    ParseErrorView,
                >(e@),
            },
    {
        Validate::build_at(tokens, 1, line)
    }

    /// Reads the instruction from the text that follows the keyword `VALIDATE`.
    pub fn from_str(s: &str, line: usize) -> (r: Result<Validate, ParseError>)
        ensures
            match r {
                Ok(built) => ValidateView::at(tokens(s@), 0, line) == Ok::<
                    ValidateView,
                    ParseErrorView,
                >(built@),
                Err(e) => ValidateView::at(tokens(s@), 0, line) == Err::<
                    ValidateView,
                    ParseErrorView,
                >(e@),
            },
    {
        let words = tokenize(s);
        Validate::build_at(&words, 0, line)
    }

    /// Writes the instruction as a line.
    pub fn to_string(&self) -> (r: String)
        ensures
            r@ == self@.line(),
    {
        let mut words: Vec<String> = Vec::new();
        words.push("VALIDATE".to_owned());
        words.push(self.field.clone());
        words.push("MATCHING".to_owned());
        words.push(self.format.to_string());
        words.push("OR".to_owned());
        words.push(self.action.to_string());
        assert(words.deep_view() =~= self@.words());
        join_with(&words, " ")
    }

    /// A copy with the same operands.
    pub fn duplicate(&self) -> (r: Validate)
        ensures
            r@ == self@,
    {
        Validate {
            field: self.field.clone(),
            format: self.format,
            action: self.action,
        }
    }
}

/// One instruction of the language: one of the nine kinds with its operands.
#[derive(Debug)]
pub enum Instruction {
    ADD(Add),
    ALIAS(Alias),
    MERGE(Merge),
    IGNORE(Ignore),
    COERCE(Coerce),
    RENAME(Rename),
    FILTER(Filter),
    DISTINCT(Distinct),
    VALIDATE(Validate),
}

/// An instruction as plain values.
pub enum InstructionView {
    ADD(AddView),
    ALIAS(AliasView),
    MERGE(MergeView),
    IGNORE(IgnoreView),
    COERCE(CoerceView),
    RENAME(RenameView),
    FILTER(FilterView),
    DISTINCT(DistinctView),
    VALIDATE(ValidateView),
}

impl View for Instruction {
    type V = InstructionView;

    open spec fn view(&self) -> InstructionView {
        match self {
            Instruction::ADD(inner) => InstructionView::ADD(inner@),
            Instruction::ALIAS(inner) => InstructionView::ALIAS(inner@),
            Instruction::MERGE(inner) => InstructionView::MERGE(inner@),
            Instruction::IGNORE(inner) => InstructionView::IGNORE(inner@),
            Instruction::COERCE(inner) => InstructionView::COERCE(inner@),
            Instruction::RENAME(inner) => InstructionView::RENAME(inner@),
            Instruction::FILTER(inner) => InstructionView::FILTER(inner@),
            Instruction::DISTINCT(inner) => InstructionView::DISTINCT(inner@),
            Instruction::VALIDATE(inner) => InstructionView::VALIDATE(inner@),
        }
    }
}

impl DeepView for Instruction {
    type V = InstructionView;

    open spec fn deep_view(&self) -> InstructionView {
        self@
    }
}

impl InstructionView {
    /// The instruction that the tokens of a line spell: the leading keyword
    /// selects the kind, the tokens behind it are the operands. A keyword that
    /// names no instruction is an error, and so is a line without tokens.
    pub open spec fn of(tokens: Seq<Seq<char>>, line: usize) -> Result<
        InstructionView,
        ParseErrorView,
    > {
        if tokens.len() == 0 {
            Err(ParseErrorView::UnknownInstruction(Seq::<char>::empty(), line))
        } else if tokens[0] == "ADD"@ {
            match AddView::at(tokens, 1, line) {
                Ok(inner) => Ok(InstructionView::ADD(inner)),
                Err(e) => Err(e),
            }
        } else if tokens[0] == "ALIAS"@ {
            match AliasView::at(tokens, 1, line) {
                Ok(inner) => Ok(InstructionView::ALIAS(inner)),
                Err(e) => Err(e),
            }
        } else if tokens[0] == "MERGE"@ {
            match MergeView::at(tokens, 1, line) {
                Ok(inner) => Ok(InstructionView::MERGE(inner)),
                Err(e) => Err(e),
            }
        } else if tokens[0] == "IGNORE"@ {
            match IgnoreView::at(tokens, 1, line) {
                Ok(inner) => Ok(InstructionView::IGNORE(inner)),
                Err(e) => Err(e),
            }
        } else if tokens[0] == "COERCE"@ {
            match CoerceView::at(tokens, 1, line) {
                Ok(inner) => Ok(InstructionView::COERCE(inner)),
                Err(e) => Err(e),
            }
        } else if tokens[0] == "RENAME"@ {
            match RenameView::at(tokens, 1, line) {
                Ok(inner) => Ok(InstructionView::RENAME(inner)),
                Err(e) => Err(e),
            }
        } else if tokens[0] == "FILTER"@ {
            match FilterView::at(tokens, 1, line) {
                Ok(inner) => Ok(InstructionView::FILTER(inner)),
                Err(e) => Err(e),
            }
        } else if tokens[0] == "DISTINCT"@ {
            match DistinctView::at(tokens, 1, line) {
                Ok(inner) => Ok(InstructionView::DISTINCT(inner)),
                Err(e) => Err(e),
            }
        } else if tokens[0] == "VALIDATE"@ {
            match ValidateView::at(tokens, 1, line) {
                Ok(inner) => Ok(InstructionView::VALIDATE(inner)),
                Err(e) => Err(e),
            }
        } else {
            Err(ParseErrorView::UnknownInstruction(tokens[0], line))
        }
    }

    /// The tokens of the line that writes this instruction.
    pub open spec fn words(self) -> Seq<Seq<char>> {
        match self {
            InstructionView::ADD(inner) => inner.words(),
            InstructionView::ALIAS(inner) => inner.words(),
            InstructionView::MERGE(inner) => inner.words(),
            InstructionView::IGNORE(inner) => inner.words(),
            InstructionView::COERCE(inner) => inner.words(),
            InstructionView::RENAME(inner) => inner.words(),
            InstructionView::FILTER(inner) => inner.words(),
            InstructionView::DISTINCT(inner) => inner.words(),
            InstructionView::VALIDATE(inner) => inner.words(),
        }
    }

    /// The line that writes this instruction.
    pub open spec fn line(self) -> Seq<char> {
        join(self.words(), " "@)
    }

    /// Whether a line can carry this instruction.
    pub open spec fn wf(self) -> bool {
        match self {
            InstructionView::ADD(inner) => inner.wf(),
            InstructionView::ALIAS(inner) => inner.wf(),
            InstructionView::MERGE(inner) => inner.wf(),
            InstructionView::IGNORE(inner) => inner.wf(),
            InstructionView::COERCE(inner) => inner.wf(),
            InstructionView::RENAME(inner) => inner.wf(),
            InstructionView::FILTER(inner) => inner.wf(),
            InstructionView::DISTINCT(inner) => inner.wf(),
            InstructionView::VALIDATE(inner) => inner.wf(),
        }
    }
}

impl Instruction {
    /// Builds the instruction that the tokens of a line spell.
    pub fn build(tokens: &Vec<String>, line: usize) -> (r: Result<Instruction, ParseError>)
        ensures
            match r {
                Ok(built) => InstructionView::of(tokens.deep_view(), line) == Ok::<
                    InstructionView,
                    ParseErrorView,
                >(built@),
                Err(e) => InstructionView::of(tokens.deep_view(), line) == Err::<
                    InstructionView,
                    ParseErrorView,
                >(e@),
            },
    {
        if tokens.len() == 0 {
            return Err(ParseError::UnknownInstruction(String::new(), line));
        }
        let keyword = tokens[0].as_str();
        if str_eq(keyword, "ADD") {
            match Add::from_tokens(tokens, line) {
                Ok(inner) => Ok(Instruction::ADD(inner)),
                Err(e) => Err(e),
            }
        } else if str_eq(keyword, "ALIAS") {
            match Alias::from_tokens(tokens, line) {
                Ok(inner) => Ok(Instruction::ALIAS(inner)),
                Err(e) => Err(e),
            }
        } else if str_eq(keyword, "MERGE") {
            match Merge::from_tokens(tokens, line) {
                Ok(inner) => Ok(Instruction::MERGE(inner)),
                Err(e) => Err(e),
            }
        } else if str_eq(keyword, "IGNORE") {
            match Ignore::from_tokens(tokens, line) {
                Ok(inner) => Ok(Instruction::IGNORE(inner)),
                Err(e) => Err(e),
            }
        } else if str_eq(keyword, "COERCE") {
            match Coerce::from_tokens(tokens, line) {
                Ok(inner) => Ok(Instruction::COERCE(inner)),
                Err(e) => Err(e),
            }
        } else if str_eq(keyword, "RENAME") {
            match Rename::from_tokens(tokens, line) {
                Ok(inner) => Ok(Instruction::RENAME(inner)),
                Err(e) => Err(e),
            }
        } else if str_eq(keyword, "FILTER") {
            match Filter::from_tokens(tokens, line) {
                Ok(inner) => Ok(Instruction::FILTER(inner)),
                Err(e) => Err(e),
            }
        } else if str_eq(keyword, "DISTINCT") {
            match Distinct::from_tokens(tokens, line) {
                Ok(inner) => Ok(Instruction::DISTINCT(inner)),
                Err(e) => Err(e),
            }
        } else if str_eq(keyword, "VALIDATE") {
            match Validate::from_tokens(tokens, line) {
                Ok(inner) => Ok(Instruction::VALIDATE(inner)),
                Err(e) => Err(e),
            }
        } else {
            Err(ParseError::UnknownInstruction(tokens[0].clone(), line))
        }
    }

    /// Builds the instruction that a line spells.
    pub fn from_str(s: &str, line: usize) -> (r: Result<Instruction, ParseError>)
        ensures
            match r {
                Ok(built) => InstructionView::of(tokens(s@), line) == Ok::<
                    InstructionView,
                    ParseErrorView,
                >(built@),
                Err(e) => InstructionView::of(tokens(s@), line) == Err::<
                    InstructionView,
                    ParseErrorView,
                >(e@),
            },
    {
        let words = tokenize(s);
        Instruction::build(&words, line)
    }

    /// Writes the instruction as a line.
    pub fn to_string(&self) -> (r: String)
        ensures
            r@ == self@.line(),
    {
        match self {
            Instruction::ADD(inner) => inner.to_string(),
            Instruction::ALIAS(inner) => inner.to_string(),
            Instruction::MERGE(inner) => inner.to_string(),
            Instruction::IGNORE(inner) => inner.to_string(),
            Instruction::COERCE(inner) => inner.to_string(),
            Instruction::RENAME(inner) => inner.to_string(),
            Instruction::FILTER(inner) => inner.to_string(),
            Instruction::DISTINCT(inner) => inner.to_string(),
            Instruction::VALIDATE(inner) => inner.to_string(),
        }
    }

    /// A copy with the same operands.
    pub fn duplicate(&self) -> (r: Instruction)
        ensures
            r@ == self@,
    {
        match self {
            Instruction::ADD(inner) => Instruction::ADD(inner.duplicate()),
            Instruction::ALIAS(inner) => Instruction::ALIAS(inner.duplicate()),
            Instruction::MERGE(inner) => Instruction::MERGE(inner.duplicate()),
            Instruction::IGNORE(inner) => Instruction::IGNORE(inner.duplicate()),
            Instruction::COERCE(inner) => Instruction::COERCE(inner.duplicate()),
            Instruction::RENAME(inner) => Instruction::RENAME(inner.duplicate()),
            Instruction::FILTER(inner) => Instruction::FILTER(inner.duplicate()),
            Instruction::DISTINCT(inner) => Instruction::DISTINCT(inner.duplicate()),
            Instruction::VALIDATE(inner) => Instruction::VALIDATE(inner.duplicate()),
        }
    }
}

} // verus!
