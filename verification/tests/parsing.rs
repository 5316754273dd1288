use dft::error::{ParseError, Slot, Token};
use dft::grammar::{Action, Connector, Expression, Format, Type};
use dft::instructions::{
    Add, Alias, Coerce, Distinct, Filter, Ignore, Instruction, Merge, Rename, Validate,
};
use dft::messages::{finvalid, finvalidkind, flineerror, fmissing};
use dft::parser::InstructionParser;
use dft::text::{join_with, render_number, split_on, str_eq, tokenize, Tokenizable};
use dft::validators::{
    parse_action, parse_expression, parse_field, parse_fields, parse_format, parse_typed,
    parse_value, validate_connector,
};

fn words(line: &str) -> Vec<String> {
    tokenize(line)
}

#[test]
fn tokenize_splits_on_single_spaces() {
    assert_eq!(tokenize("ADD a,b TYPED STRING"), vec!["ADD", "a,b", "TYPED", "STRING"]);
    assert_eq!(tokenize("a  b"), vec!["a", "", "b"]);
    assert_eq!(tokenize(" "), vec!["", ""]);
    assert!(tokenize("").is_empty());
}

#[test]
fn split_keeps_empty_pieces() {
    assert_eq!(split_on("a,b,c", ','), vec!["a", "b", "c"]);
    assert_eq!(split_on("", ','), vec![""]);
    assert_eq!(split_on(",a,", ','), vec!["", "a", ""]);
    assert_eq!(split_on("é,ü", ','), vec!["é", "ü"]);
}

#[test]
fn tokenizable_agrees_with_split() {
    let text = "file.tar.csv";
    assert_eq!(text.tokenize_str('.'), vec!["file", "tar", "csv"]);
    assert_eq!(text.tokenize_string('.'), vec!["file", "tar", "csv"]);
    assert_eq!("a  b".tokenize_str(' '), vec!["a", "", "b"]);
    assert_eq!(" ".tokenize_string(' '), vec!["", ""]);
    assert_eq!("word".tokenize_str(' '), vec!["word"]);
}

#[test]
fn the_empty_text_has_no_token() {
    assert!("".tokenize_str(' ').is_empty());
    assert!("".tokenize_string(' ').is_empty());
    assert!("".tokenize_str(',').is_empty());
    assert!("".tokenize_string(',').is_empty());
    assert_eq!("".tokenize_string(' '), tokenize(""));
    assert_eq!("ADD a".tokenize_string(' '), tokenize("ADD a"));
}

#[test]
fn join_is_the_inverse_of_split() {
    let parts = split_on("a,,b", ',');
    assert_eq!(join_with(&parts, ","), "a,,b");
    assert_eq!(join_with(&Vec::new(), ","), "");
    assert_eq!(join_with(&vec!["x".to_string()], ", "), "x");
    assert_eq!(join_with(&vec!["x".to_string(), "y".to_string()], ", "), "x, y");
}

#[test]
fn strings_compare_by_content() {
    assert!(str_eq("TYPED", "TYPED"));
    assert!(!str_eq("TYPED", "typed"));
    assert!(!str_eq("TYPE", "TYPED"));
    assert!(str_eq("", ""));
}

#[test]
fn numbers_render_in_decimal() {
    assert_eq!(render_number(0), "0");
    assert_eq!(render_number(7), "7");
    assert_eq!(render_number(10), "10");
    assert_eq!(render_number(1203), "1203");
}

#[test]
fn keywords_are_upper_case_only() {
    assert_eq!(Type::from_str("INTEGER"), Ok(Type::INTEGER));
    assert_eq!(Type::from_str("integer"), Err("integer".to_string()));
    assert_eq!(Expression::from_str("EQGREATER"), Ok(Expression::EQGREATER));
    assert_eq!(Format::from_str("DATETIME"), Ok(Format::DATETIME));
    assert_eq!(Action::from_str("HALT"), Ok(Action::HALT));
    assert_eq!(Connector::from_str("MATCHING"), Ok(Connector::MATCHING));
    assert_eq!(Connector::from_str("WITH"), Err("WITH".to_string()));
    assert_eq!(Type::BOOLEAN.to_string(), "BOOLEAN");
    assert_eq!(Connector::RESCUE.to_string(), "RESCUE");
    assert_eq!(Token::FIELDS.to_string(), "<fields>");
}

#[test]
fn validators_tell_missing_from_invalid() {
    let line = 4;
    assert!(matches!(
        parse_typed(None, line),
        Err(ParseError::MissingToken(Slot::Operand(Token::TYPE), 4))
    ));
    let bad = "NUMBER".to_string();
    match parse_typed(Some(&bad), line) {
        Err(ParseError::InvalidToken(Token::TYPE, found, 4)) => assert_eq!(found, "NUMBER"),
        other => panic!("unexpected: {:?}", other),
    }
    let good = "FLOAT".to_string();
    assert!(matches!(parse_typed(Some(&good), line), Ok(Type::FLOAT)));
    assert!(matches!(
        parse_expression(None, line),
        Err(ParseError::MissingToken(Slot::Operand(Token::EXPRESSION), 4))
    ));
    assert!(matches!(
        parse_format(Some(&bad), line),
        Err(ParseError::InvalidToken(Token::FORMAT, _, 4))
    ));
    assert!(matches!(
        parse_action(Some(&bad), line),
        Err(ParseError::InvalidToken(Token::ACTION, _, 4))
    ));
    assert!(matches!(
        parse_value(None, line),
        Err(ParseError::MissingToken(Slot::Operand(Token::VALUE), 4))
    ));
    assert!(matches!(
        parse_field(None, line),
        Err(ParseError::MissingToken(Slot::Operand(Token::FIELD), 4))
    ));
    assert!(matches!(
        parse_fields(None, line),
        Err(ParseError::MissingToken(Slot::Operand(Token::FIELDS), 4))
    ));
    let list = "a,b".to_string();
    assert_eq!(parse_fields(Some(&list), line).unwrap(), vec!["a", "b"]);
    assert_eq!(parse_value(Some(&list), line).unwrap(), "a,b");
}

#[test]
fn connector_validator_has_three_errors() {
    assert!(matches!(
        validate_connector(None, Connector::TO, 2),
        Err(ParseError::MissingToken(Slot::Keyword(Connector::TO), 2))
    ));
    let junk = "INTO".to_string();
    match validate_connector(Some(&junk), Connector::TO, 2) {
        Err(ParseError::InvalidToken(Token::CONNECTOR, found, 2)) => assert_eq!(found, "INTO"),
        other => panic!("unexpected: {:?}", other),
    }
    let other = "OR".to_string();
    assert!(matches!(
        validate_connector(Some(&other), Connector::TO, 2),
        Err(ParseError::WrongConnector(Connector::TO, Connector::OR, 2))
    ));
    let right = "TO".to_string();
    assert!(validate_connector(Some(&right), Connector::TO, 2).is_ok());
}

#[test]
fn alias_without_connector_names_to_and_the_line() {
    assert!(matches!(
        Alias::from_str("field", 7),
        Err(ParseError::MissingToken(Slot::Keyword(Connector::TO), 7))
    ));
    assert!(matches!(
        Instruction::from_str("ALIAS field", 3),
        Err(ParseError::MissingToken(Slot::Keyword(Connector::TO), 3))
    ));
    assert!(matches!(
        Instruction::from_str("ALIAS field TO", 3),
        Err(ParseError::MissingToken(Slot::Operand(Token::FIELD), 3))
    ));
    assert!(matches!(
        Instruction::from_str("ALIAS", 3),
        Err(ParseError::MissingToken(Slot::Operand(Token::FIELD), 3))
    ));
    let stream = vec!["IGNORE a".to_string(), "ALIAS field".to_string()];
    assert!(matches!(
        InstructionParser::parse(&stream),
        Err(ParseError::MissingToken(Slot::Keyword(Connector::TO), 2))
    ));
}

#[test]
fn each_builder_reads_its_grammar() {
    let add = Add::from_tokens(&words("ADD a,b TYPED STRING DEFAULT x"), 1).unwrap();
    assert_eq!(add.fields, vec!["a", "b"]);
    assert_eq!(add.typed, Type::STRING);
    assert_eq!(add.default, "x");
    let alias = Alias::from_tokens(&words("ALIAS a TO b"), 1).unwrap();
    assert_eq!((alias.field.as_str(), alias.to.as_str()), ("a", "b"));
    let coerce = Coerce::from_tokens(&words("COERCE n TYPED INTEGER RESCUE 0"), 1).unwrap();
    assert_eq!(coerce.fields, vec!["n"]);
    assert_eq!(coerce.typed, Type::INTEGER);
    assert_eq!(coerce.rescue, "0");
    let distinct = Distinct::from_tokens(&words("DISTINCT city,zip"), 1).unwrap();
    assert_eq!(distinct.fields, vec!["city", "zip"]);
    let filter = Filter::from_tokens(&words("FILTER age MATCHING GREATER 18"), 1).unwrap();
    assert_eq!(filter.fields, vec!["age"]);
    assert_eq!(filter.expression, Expression::GREATER);
    assert_eq!(filter.value, "18");
    let ignore = Ignore::from_tokens(&words("IGNORE a"), 1).unwrap();
    assert_eq!(ignore.fields, vec!["a"]);
    let merge = Merge::from_tokens(&words("MERGE first,last TO name"), 1).unwrap();
    assert_eq!(merge.fields, vec!["first", "last"]);
    assert_eq!(merge.to, "name");
    let rename = Rename::from_tokens(&words("RENAME a TO b"), 1).unwrap();
    assert_eq!((rename.field.as_str(), rename.to.as_str()), ("a", "b"));
    let validate =
        Validate::from_tokens(&words("VALIDATE email MATCHING EMAIL OR DISCARD"), 1).unwrap();
    assert_eq!(validate.field, "email");
    assert_eq!(validate.format, Format::EMAIL);
    assert_eq!(validate.action, Action::DISCARD);
}

#[test]
fn builders_report_the_first_position_that_fails() {
    assert!(matches!(
        Add::from_str("", 9),
        Err(ParseError::MissingToken(Slot::Operand(Token::FIELDS), 9))
    ));
    assert!(matches!(
        Add::from_str("a", 9),
        Err(ParseError::MissingToken(Slot::Keyword(Connector::TYPED), 9))
    ));
    assert!(matches!(
        Add::from_str("a DEFAULT", 9),
        Err(ParseError::WrongConnector(Connector::TYPED, Connector::DEFAULT, 9))
    ));
    assert!(matches!(
        Add::from_str("a TYPED", 9),
        Err(ParseError::MissingToken(Slot::Operand(Token::TYPE), 9))
    ));
    assert!(matches!(
        Add::from_str("a TYPED TEXT", 9),
        Err(ParseError::InvalidToken(Token::TYPE, _, 9))
    ));
    assert!(matches!(
        Add::from_str("a TYPED STRING", 9),
        Err(ParseError::MissingToken(Slot::Keyword(Connector::DEFAULT), 9))
    ));
    assert!(matches!(
        Add::from_str("a TYPED STRING RESCUE x", 9),
        Err(ParseError::WrongConnector(Connector::DEFAULT, Connector::RESCUE, 9))
    ));
    assert!(matches!(
        Add::from_str("a TYPED STRING DEFAULT", 9),
        Err(ParseError::MissingToken(Slot::Operand(Token::VALUE), 9))
    ));
    assert!(matches!(
        Filter::from_str("a MATCHING ABOVE 3", 9),
        Err(ParseError::InvalidToken(Token::EXPRESSION, _, 9))
    ));
    assert!(matches!(
        Validate::from_str("a MATCHING EMAIL OR", 9),
        Err(ParseError::MissingToken(Slot::Operand(Token::ACTION), 9))
    ));
    assert!(matches!(
        Validate::from_str("a MATCHING EMAIL AND HALT", 9),
        Err(ParseError::InvalidToken(Token::CONNECTOR, _, 9))
    ));
}

#[test]
fn unknown_keyword_is_named() {
    match Instruction::from_str("SET a TYPED STRING", 5) {
        Err(ParseError::UnknownInstruction(keyword, 5)) => assert_eq!(keyword, "SET"),
        other => panic!("unexpected: {:?}", other),
    }
    match Instruction::from_str("add a", 5) {
        Err(ParseError::UnknownInstruction(keyword, 5)) => assert_eq!(keyword, "add"),
        other => panic!("unexpected: {:?}", other),
    }
    match Instruction::build(&Vec::new(), 5) {
        Err(ParseError::UnknownInstruction(keyword, 5)) => assert_eq!(keyword, ""),
        other => panic!("unexpected: {:?}", other),
    }
}

#[test]
fn every_kind_round_trips() {
    let lines = [
        "ADD a,b TYPED STRING DEFAULT x",
        "ALIAS a TO b",
        "COERCE n,m TYPED INTEGER RESCUE 0",
        "DISTINCT city",
        "FILTER age MATCHING GREATER 18",
        "IGNORE a,b,c",
        "MERGE first,last TO name",
        "RENAME a TO b",
        "VALIDATE email MATCHING EMAIL OR DISCARD",
    ];
    for (at, line) in lines.iter().enumerate() {
        let built = Instruction::from_str(line, at + 1).unwrap();
        let written = built.to_string();
        assert_eq!(&written, line);
        let again = Instruction::from_str(&written, 99).unwrap();
        assert_eq!(again.to_string(), written);
    }
}

#[test]
fn trailing_tokens_are_dropped_on_the_way_back() {
    let built = Instruction::from_str("ADD a,b TYPED STRING DEFAULT x trailing", 1).unwrap();
    assert_eq!(built.to_string(), "ADD a,b TYPED STRING DEFAULT x");
    let copy = built.duplicate();
    assert_eq!(copy.to_string(), built.to_string());
}

#[test]
fn stream_skips_blank_lines_and_numbers_from_one() {
    let lines = vec!["DISTINCT city".to_string(), "".to_string(), "BOGUS x".to_string()];
    match InstructionParser::parse(&lines) {
        Err(ParseError::UnknownInstruction(keyword, 3)) => assert_eq!(keyword, "BOGUS"),
        other => panic!("unexpected: {:?}", other),
    }
    let good = vec!["DISTINCT city".to_string(), "".to_string(), "IGNORE a".to_string()];
    let built = InstructionParser::parse(&good).unwrap();
    assert_eq!(built.len(), 2);
    assert_eq!(built[0].to_string(), "DISTINCT city");
    assert_eq!(built[1].to_string(), "IGNORE a");
    assert!(InstructionParser::from_line("", 1).unwrap().is_none());
    assert!(InstructionParser::from_line("IGNORE a", 1).unwrap().is_some());
    assert!(InstructionParser::from_instructor(None).unwrap().is_empty());
    assert_eq!(InstructionParser::from_instructor(Some(&good)).unwrap().len(), 2);
}

#[test]
fn the_first_bad_line_fails_the_stream() {
    let lines = vec![
        "IGNORE a".to_string(),
        "RENAME a".to_string(),
        "NOPE".to_string(),
    ];
    assert!(matches!(
        InstructionParser::parse(&lines),
        Err(ParseError::MissingToken(Slot::Keyword(Connector::TO), 2))
    ));
}

#[test]
fn messages_have_their_wording() {
    assert_eq!(fmissing("TO"), "Missing 'TO'");
    assert_eq!(finvalid("<type>", "NUMBER".to_string()), "Invalid <type>, found 'NUMBER'");
    assert_eq!(
        finvalidkind("<connector>", "TO", "OR".to_string()),
        "Invalid <connector>, expected TO, found 'OR'"
    );
    assert_eq!(
        flineerror("instructions.dft", 12, "Missing 'TO'".to_string()),
        "[instructions.dft] Error on line 12: Missing 'TO'"
    );
}

#[test]
fn errors_describe_themselves() {
    let missing = Alias::from_str("field", 7).unwrap_err();
    assert_eq!(missing.line(), 7);
    assert_eq!(missing.message(), "Missing 'TO'");
    assert_eq!(missing.to_string("x.dft"), "[x.dft] Error on line 7: Missing 'TO'");
    let invalid = Add::from_str("a TYPED TEXT", 2).unwrap_err();
    assert_eq!(invalid.message(), "Invalid <type>, found 'TEXT'");
    let wrong = Add::from_str("a DEFAULT", 3).unwrap_err();
    assert_eq!(wrong.message(), "Invalid <connector>, expected TYPED, found 'DEFAULT'");
    let unknown = Instruction::from_str("SET a", 4).unwrap_err();
    assert_eq!(unknown.message(), "Invalid <instruction>, found 'SET'");
    assert_eq!(unknown.line(), 4);
    let absent = Ignore::from_str("", 5).unwrap_err();
    assert_eq!(absent.message(), "Missing '<fields>'");
}
