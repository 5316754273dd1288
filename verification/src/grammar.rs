//! The closed vocabularies of the instruction language: type names, comparisons,
//! formats, failure actions and connectors, each with its keyword.

use crate::text::{free_of, str_eq};
use vstd::prelude::*;
use vstd::string::*;

verus! {

/// The declared type of a field.
#[derive(Clone, Copy, Debug, PartialEq, Eq, Structural)]
pub enum Type {
    /// A decimal number.
    FLOAT,
    /// Free text.
    STRING,
    /// A whole number.
    INTEGER,
    /// A truth value.
    BOOLEAN,
}

impl Type {
    /// The keyword that spells this type name.
    pub open spec fn keyword(self) -> Seq<char> {
        match self {
            Type::FLOAT => "FLOAT"@,
            Type::STRING => "STRING"@,
            Type::INTEGER => "INTEGER"@,
            Type::BOOLEAN => "BOOLEAN"@,
        }
    }

    /// The type name that a text spells, if it spells one. Keywords are upper case.
    pub open spec fn of(s: Seq<char>) -> Option<Type> {
        if s == "FLOAT"@ {
            Some(Type::FLOAT)
        } else if s == "STRING"@ {
            Some(Type::STRING)
        } else if s == "INTEGER"@ {
            Some(Type::INTEGER)
        } else if s == "BOOLEAN"@ {
            Some(Type::BOOLEAN)
        } else {
            None
        }
    }

    /// Reads a type name; a text that spells none is handed back as the error.
    pub fn from_str(s: &str) -> (r: Result<Type, String>)
        ensures
            match r {
                Ok(t) => Type::of(s@) == Some(t),
                Err(e) => Type::of(s@).is_none() && e@ == s@,
            },
    {
        if str_eq(s, "FLOAT") {
            Ok(Type::FLOAT)
        } else if str_eq(s, "STRING") {
            Ok(Type::STRING)
        } else if str_eq(s, "INTEGER") {
            Ok(Type::INTEGER)
        } else if str_eq(s, "BOOLEAN") {
            Ok(Type::BOOLEAN)
        } else {
            Err(s.to_owned())
        }
    }

    /// The keyword, as text.
    pub fn to_string(&self) -> (r: String)
        ensures
            r@ == self.keyword(),
    {
        match self {
            Type::FLOAT => "FLOAT".to_owned(),
            Type::STRING => "STRING".to_owned(),
            Type::INTEGER => "INTEGER".to_owned(),
            Type::BOOLEAN => "BOOLEAN".to_owned(),
        }
    }

    /// Every keyword is read back as the type name it spells, and holds neither a
    /// space nor a comma.
    pub proof fn lemma_keyword(t: Type)
        ensures
            Type::of(t.keyword()) == Some(t),
            free_of(t.keyword(), ' '),
            free_of(t.keyword(), ','),
            t.keyword().len() > 0,
    {
        reveal_strlit("FLOAT");
        reveal_strlit("STRING");
        reveal_strlit("INTEGER");
        reveal_strlit("BOOLEAN");
        assert("FLOAT"@.len() == 5 && "FLOAT"@[0] == 'F');
        assert("STRING"@.len() == 6 && "STRING"@[0] == 'S');
        assert("INTEGER"@.len() == 7 && "INTEGER"@[0] == 'I');
        assert("BOOLEAN"@.len() == 7 && "BOOLEAN"@[0] == 'B');
    }
}

/// The comparison a filter applies between a stored value and its literal.
#[derive(Clone, Copy, Debug, PartialEq, Eq, Structural)]
pub enum Expression {
    /// Equal.
    EQUALS,
    /// Strictly below.
    LESSER,
    /// Strictly above.
    GREATER,
    /// Not equal.
    DIFFERS,
    /// Below or equal.
    EQLESSER,
    /// Above or equal.
    EQGREATER,
}

impl Expression {
    /// The keyword that spells this comparison.
    pub open spec fn keyword(self) -> Seq<char> {
        match self {
            Expression::EQUALS => "EQUALS"@,
            Expression::LESSER => "LESSER"@,
            Expression::GREATER => "GREATER"@,
            Expression::DIFFERS => "DIFFERS"@,
            Expression::EQLESSER => "EQLESSER"@,
            Expression::EQGREATER => "EQGREATER"@,
        }
    }

    /// The comparison that a text spells, if it spells one. Keywords are upper case.
    pub open spec fn of(s: Seq<char>) -> Option<Expression> {
        if s == "EQUALS"@ {
            Some(Expression::EQUALS)
        } else if s == "LESSER"@ {
            Some(Expression::LESSER)
        } else if s == "GREATER"@ {
            Some(Expression::GREATER)
        } else if s == "DIFFERS"@ {
            Some(Expression::DIFFERS)
        } else if s == "EQLESSER"@ {
            Some(Expression::EQLESSER)
        } else if s == "EQGREATER"@ {
            Some(Expression::EQGREATER)
        } else {
            None
        }
    }

    /// Reads a comparison; a text that spells none is handed back as the error.
    pub fn from_str(s: &str) -> (r: Result<Expression, String>)
        ensures
            match r {
                Ok(t) => Expression::of(s@) == Some(t),
                Err(e) => Expression::of(s@).is_none() && e@ == s@,
            },
    {
        if str_eq(s, "EQUALS") {
            Ok(Expression::EQUALS)
        } else if str_eq(s, "LESSER") {
            Ok(Expression::LESSER)
        } else if str_eq(s, "GREATER") {
            Ok(Expression::GREATER)
        } else if str_eq(s, "DIFFERS") {
            Ok(Expression::DIFFERS)
        } else if str_eq(s, "EQLESSER") {
            Ok(Expression::EQLESSER)
        } else if str_eq(s, "EQGREATER") {
            Ok(Expression::EQGREATER)
        } else {
            Err(s.to_owned())
        }
    }

    /// The keyword, as text.
    pub fn to_string(&self) -> (r: String)
        ensures
            r@ == self.keyword(),
    {
        match self {
            Expression::EQUALS => "EQUALS".to_owned(),
            Expression::LESSER => "LESSER".to_owned(),
            Expression::GREATER => "GREATER".to_owned(),
            Expression::DIFFERS => "DIFFERS".to_owned(),
            Expression::EQLESSER => "EQLESSER".to_owned(),
            Expression::EQGREATER => "EQGREATER".to_owned(),
        }
    }

    /// Every keyword is read back as the comparison it spells, and holds neither a
    /// space nor a comma.
    pub proof fn lemma_keyword(t: Expression)
        ensures
            Expression::of(t.keyword()) == Some(t),
            free_of(t.keyword(), ' '),
            free_of(t.keyword(), ','),
            t.keyword().len() > 0,
    {
        reveal_strlit("EQUALS");
        reveal_strlit("LESSER");
        reveal_strlit("GREATER");
        reveal_strlit("DIFFERS");
        reveal_strlit("EQLESSER");
        reveal_strlit("EQGREATER");
        assert("EQUALS"@.len() == 6 && "EQUALS"@[0] == 'E');
        assert("LESSER"@.len() == 6 && "LESSER"@[0] == 'L');
        assert("GREATER"@.len() == 7 && "GREATER"@[0] == 'G');
        assert("DIFFERS"@.len() == 7 && "DIFFERS"@[0] == 'D');
        assert("EQLESSER"@.len() == 8 && "EQLESSER"@[0] == 'E');
        assert("EQGREATER"@.len() == 9 && "EQGREATER"@[0] == 'E');
    }
}

/// The shape a validated value must have.
#[derive(Clone, Copy, Debug, PartialEq, Eq, Structural)]
pub enum Format {
    /// A scheme, a colon and a rest.
    URI,
    /// Five hyphenated groups of hexadecimal digits.
    UUID,
    /// Year, month and day.
    DATE,
    /// Hour, minute and second.
    TIME,
    /// A local part, an at sign and a dotted domain.
    EMAIL,
    /// A date and a time.
    DATETIME,
}

impl Format {
    /// The keyword that spells this format name.
    pub open spec fn keyword(self) -> Seq<char> {
        match self {
            Format::URI => "URI"@,
            Format::UUID => "UUID"@,
            Format::DATE => "DATE"@,
            Format::TIME => "TIME"@,
            Format::EMAIL => "EMAIL"@,
            Format::DATETIME => "DATETIME"@,
        }
    }

    /// The format name that a text spells, if it spells one. Keywords are upper case.
    pub open spec fn of(s: Seq<char>) -> Option<Format> {
        if s == "URI"@ {
            Some(Format::URI)
        } else if s == "UUID"@ {
            Some(Format::UUID)
        } else if s == "DATE"@ {
            Some(Format::DATE)
        } else if s == "TIME"@ {
            Some(Format::TIME)
        } else if s == "EMAIL"@ {
            Some(Format::EMAIL)
        } else if s == "DATETIME"@ {
            Some(Format::DATETIME)
        } else {
            None
        }
    }

    /// Reads a format name; a text that spells none is handed back as the error.
    pub fn from_str(s: &str) -> (r: Result<Format, String>)
        ensures
            match r {
                Ok(t) => Format::of(s@) == Some(t),
                Err(e) => Format::of(s@).is_none() && e@ == s@,
            },
    {
        if str_eq(s, "URI") {
            Ok(Format::URI)
        } else if str_eq(s, "UUID") {
            Ok(Format::UUID)
        } else if str_eq(s, "DATE") {
            Ok(Format::DATE)
        } else if str_eq(s, "TIME") {
            Ok(Format::TIME)
        } else if str_eq(s, "EMAIL") {
            Ok(Format::EMAIL)
        } else if str_eq(s, "DATETIME") {
            Ok(Format::DATETIME)
        } else {
            Err(s.to_owned())
        }
    }

    /// The keyword, as text.
    pub fn to_string(&self) -> (r: String)
        ensures
            r@ == self.keyword(),
    {
        match self {
            Format::URI => "URI".to_owned(),
            Format::UUID => "UUID".to_owned(),
            Format::DATE => "DATE".to_owned(),
            Format::TIME => "TIME".to_owned(),
            Format::EMAIL => "EMAIL".to_owned(),
            Format::DATETIME => "DATETIME".to_owned(),
        }
    }

    /// Every keyword is read back as the format name it spells, and holds neither a
    /// space nor a comma.
    pub proof fn lemma_keyword(t: Format)
        ensures
            Format::of(t.keyword()) == Some(t),
            free_of(t.keyword(), ' '),
            free_of(t.keyword(), ','),
            t.keyword().len() > 0,
    {
        reveal_strlit("URI");
        reveal_strlit("UUID");
        reveal_strlit("DATE");
        reveal_strlit("TIME");
        reveal_strlit("EMAIL");
        reveal_strlit("DATETIME");
        assert("URI"@.len() == 3 && "URI"@[0] == 'U');
        assert("UUID"@.len() == 4 && "UUID"@[0] == 'U');
        assert("DATE"@.len() == 4 && "DATE"@[0] == 'D');
        assert("TIME"@.len() == 4 && "TIME"@[0] == 'T');
        assert("EMAIL"@.len() == 5 && "EMAIL"@[0] == 'E');
        assert("DATETIME"@.len() == 8 && "DATETIME"@[0] == 'D');
    }
}

/// What a validation does with a record that fails it.
#[derive(Clone, Copy, Debug, PartialEq, Eq, Structural)]
pub enum Action {
    /// Stop the run.
    HALT,
    /// Report the record and keep it.
    NOTIFY,
    /// Mark the record discarded.
    DISCARD,
}

impl Action {
    /// The keyword that spells this action name.
    pub open spec fn keyword(self) -> Seq<char> {
        match self {
            Action::HALT => "HALT"@,
            Action::NOTIFY => "NOTIFY"@,
            Action::DISCARD => "DISCARD"@,
        }
    }

    /// The action name that a text spells, if it spells one. Keywords are upper case.
    pub open spec fn of(s: Seq<char>) -> Option<Action> {
        if s == "HALT"@ {
            Some(Action::HALT)
        } else if s == "NOTIFY"@ {
            Some(Action::NOTIFY)
        } else if s == "DISCARD"@ {
            Some(Action::DISCARD)
        } else {
            None
        }
    }

    /// Reads a action name; a text that spells none is handed back as the error.
    pub fn from_str(s: &str) -> (r: Result<Action, String>)
        ensures
            match r {
                Ok(t) => Action::of(s@) == Some(t),
                Err(e) => Action::of(s@).is_none() && e@ == s@,
            },
    {
        if str_eq(s, "HALT") {
            Ok(Action::HALT)
        } else if str_eq(s, "NOTIFY") {
            Ok(Action::NOTIFY)
        } else if str_eq(s, "DISCARD") {
            Ok(Action::DISCARD)
        } else {
            Err(s.to_owned())
        }
    }

    /// The keyword, as text.
    pub fn to_string(&self) -> (r: String)
        ensures
            r@ == self.keyword(),
    {
        match self {
            Action::HALT => "HALT".to_owned(),
            Action::NOTIFY => "NOTIFY".to_owned(),
            Action::DISCARD => "DISCARD".to_owned(),
        }
    }

    /// Every keyword is read back as the action name it spells, and holds neither a
    /// space nor a comma.
    pub proof fn lemma_keyword(t: Action)
        ensures
            Action::of(t.keyword()) == Some(t),
            free_of(t.keyword(), ' '),
            free_of(t.keyword(), ','),
            t.keyword().len() > 0,
    {
        reveal_strlit("HALT");
        reveal_strlit("NOTIFY");
        reveal_strlit("DISCARD");
        assert("HALT"@.len() == 4 && "HALT"@[0] == 'H');
        assert("NOTIFY"@.len() == 6 && "NOTIFY"@[0] == 'N');
        assert("DISCARD"@.len() == 7 && "DISCARD"@[0] == 'D');
    }
}

/// The keywords that hold the grammar positions between operands.
#[derive(Clone, Copy, Debug, PartialEq, Eq, Structural)]
pub enum Connector {
    TO,
    OR,
    TYPED,
    RESCUE,
    DEFAULT,
    MATCHING,
}

impl Connector {
    /// The keyword that spells this connector.
    pub open spec fn keyword(self) -> Seq<char> {
        match self {
            Connector::TO => "TO"@,
            Connector::OR => "OR"@,
            Connector::TYPED => "TYPED"@,
            Connector::RESCUE => "RESCUE"@,
            Connector::DEFAULT => "DEFAULT"@,
            Connector::MATCHING => "MATCHING"@,
        }
    }

    /// The connector that a text spells, if it spells one. Keywords are upper case.
    pub open spec fn of(s: Seq<char>) -> Option<Connector> {
        if s == "TO"@ {
            Some(Connector::TO)
        } else if s == "OR"@ {
            Some(Connector::OR)
        } else if s == "TYPED"@ {
            Some(Connector::TYPED)
        } else if s == "RESCUE"@ {
            Some(Connector::RESCUE)
        } else if s == "DEFAULT"@ {
            Some(Connector::DEFAULT)
        } else if s == "MATCHING"@ {
            Some(Connector::MATCHING)
        } else {
            None
        }
    }

    /// Reads a connector; a text that spells none is handed back as the error.
    pub fn from_str(s: &str) -> (r: Result<Connector, String>)
        ensures
            match r {
                Ok(t) => Connector::of(s@) == Some(t),
                Err(e) => Connector::of(s@).is_none() && e@ == s@,
            },
    {
        if str_eq(s, "TO") {
            Ok(Connector::TO)
        } else if str_eq(s, "OR") {
            Ok(Connector::OR)
        } else if str_eq(s, "TYPED") {
            Ok(Connector::TYPED)
        } else if str_eq(s, "RESCUE") {
            Ok(Connector::RESCUE)
        } else if str_eq(s, "DEFAULT") {
            Ok(Connector::DEFAULT)
        } else if str_eq(s, "MATCHING") {
            Ok(Connector::MATCHING)
        } else {
            Err(s.to_owned())
        }
    }

    /// The keyword, as text.
    pub fn to_string(&self) -> (r: String)
        ensures
            r@ == self.keyword(),
    {
        match self {
            Connector::TO => "TO".to_owned(),
            Connector::OR => "OR".to_owned(),
            Connector::TYPED => "TYPED".to_owned(),
            Connector::RESCUE => "RESCUE".to_owned(),
            Connector::DEFAULT => "DEFAULT".to_owned(),
            Connector::MATCHING => "MATCHING".to_owned(),
        }
    }

    /// Every keyword is read back as the connector it spells, and holds neither a
    /// space nor a comma.
    pub proof fn lemma_keyword(t: Connector)
        ensures
            Connector::of(t.keyword()) == Some(t),
            free_of(t.keyword(), ' '),
            free_of(t.keyword(), ','),
            t.keyword().len() > 0,
    {
        reveal_strlit("TO");
        reveal_strlit("OR");
        reveal_strlit("TYPED");
        reveal_strlit("RESCUE");
        reveal_strlit("DEFAULT");
        reveal_strlit("MATCHING");
        assert("TO"@.len() == 2 && "TO"@[0] == 'T');
        assert("OR"@.len() == 2 && "OR"@[0] == 'O');
        assert("TYPED"@.len() == 5 && "TYPED"@[0] == 'T');
        assert("RESCUE"@.len() == 6 && "RESCUE"@[0] == 'R');
        assert("DEFAULT"@.len() == 7 && "DEFAULT"@[0] == 'D');
        assert("MATCHING"@.len() == 8 && "MATCHING"@[0] == 'M');
    }
}

} // verus!
