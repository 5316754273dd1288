use dft::engine::{Executable, Outcome};
use dft::grammar::{Format, Type};
use dft::instructions::Instruction;
use dft::table::{Field, LoadError, Record, Table};

fn table(header: &[&str], rows: &[&[&str]]) -> Table {
    let header: Vec<String> = header.iter().map(|s| s.to_string()).collect();
    let rows: Vec<Vec<String>> =
        rows.iter().map(|row| row.iter().map(|s| s.to_string()).collect()).collect();
    Table::load(&header, &rows).unwrap()
}

fn run(table: &mut Table, line: &str) -> Outcome {
    assert!(table.is_wf());
    let outcome = Instruction::from_str(line, 1).unwrap().execute(table);
    assert!(table.is_wf());
    outcome
}

fn column(table: &Table, at: usize) -> Vec<String> {
    table.records.iter().map(|record| record.values[at].clone()).collect()
}

fn discarded(table: &Table) -> Vec<bool> {
    table.records.iter().map(|record| record.discarded).collect()
}

fn names(table: &Table) -> Vec<String> {
    table.fields.iter().map(|field| field.name.clone()).collect()
}

fn applied_quietly(outcome: &Outcome) -> bool {
    matches!(outcome, Outcome::Applied(reported) if reported.is_empty())
}

#[test]
fn loading_numbers_records_and_types_fields_as_text() {
    let t = table(&["a", "b"], &[&["1", "2"], &["3", "4"]]);
    assert_eq!(names(&t), vec!["a", "b"]);
    assert!(t.fields.iter().all(|field| field.typed == Type::STRING && field.aliases.is_empty()));
    assert_eq!(t.records.iter().map(|record| record.id).collect::<Vec<u64>>(), vec![0, 1]);
    assert_eq!(discarded(&t), vec![false, false]);
    assert_eq!(column(&t, 1), vec!["2", "4"]);
    assert!(t.is_wf());
}

#[test]
fn loading_rejects_repeated_names_and_ragged_rows() {
    let header = vec!["a".to_string(), "b".to_string(), "a".to_string()];
    assert_eq!(Table::load(&header, &Vec::new()).unwrap_err(), LoadError::RepeatedName(2));
    let header = vec!["a".to_string(), "b".to_string()];
    let rows = vec![
        vec!["1".to_string(), "2".to_string()],
        vec!["3".to_string()],
        vec!["4".to_string()],
    ];
    assert_eq!(Table::load(&header, &rows).unwrap_err(), LoadError::Ragged(1));
    let both = vec!["a".to_string(), "a".to_string()];
    assert_eq!(Table::load(&both, &rows).unwrap_err(), LoadError::RepeatedName(1));
}

#[test]
fn wellformedness_is_checked_on_public_fields() {
    let mut t = table(&["a"], &[&["1"], &["2"]]);
    assert!(t.is_wf());
    t.records[1].id = 5;
    assert!(!t.is_wf());
    t.records[1].id = 1;
    t.records[0].values.push("extra".to_string());
    assert!(!t.is_wf());
    let r = Record::new(3, vec!["v".to_string()]);
    assert_eq!((r.id, r.discarded, r.values.len()), (3, false, 1));
    let f = Field::new("name");
    assert_eq!((f.name.as_str(), f.typed), ("name", Type::STRING));
    assert!(f.answers_to("name"));
    assert!(!f.answers_to("other"));
}

#[test]
fn add_creates_fields_with_the_default_in_every_record() {
    let mut t = table(&["id"], &[&["1"], &["2"], &["3"]]);
    let outcome = run(&mut t, "ADD a,b TYPED STRING DEFAULT x");
    assert!(applied_quietly(&outcome));
    assert_eq!(names(&t), vec!["id", "a", "b"]);
    assert_eq!(t.fields[1].typed, Type::STRING);
    assert_eq!(t.fields[2].typed, Type::STRING);
    assert_eq!(t.records.len(), 3);
    assert_eq!(column(&t, 0), vec!["1", "2", "3"]);
    assert_eq!(column(&t, 1), vec!["x", "x", "x"]);
    assert_eq!(column(&t, 2), vec!["x", "x", "x"]);
}

#[test]
fn add_carries_its_type() {
    let mut t = table(&["id"], &[&["1"]]);
    run(&mut t, "ADD n TYPED INTEGER DEFAULT 0");
    assert_eq!(t.fields[1].typed, Type::INTEGER);
    assert_eq!(column(&t, 1), vec!["0"]);
}

#[test]
fn add_of_a_taken_or_repeated_name_is_misconfigured() {
    let mut t = table(&["id"], &[&["1"]]);
    assert!(matches!(run(&mut t, "ADD a,id TYPED STRING DEFAULT x"), Outcome::Misconfigured));
    assert_eq!(names(&t), vec!["id"]);
    assert_eq!(t.records[0].values, vec!["1"]);
    assert!(matches!(run(&mut t, "ADD a,a TYPED STRING DEFAULT x"), Outcome::Misconfigured));
    assert_eq!(names(&t), vec!["id"]);
}

#[test]
fn alias_adds_a_name_without_a_column() {
    let mut t = table(&["city"], &[&["A"], &["B"]]);
    assert!(applied_quietly(&run(&mut t, "ALIAS city TO town")));
    assert_eq!(names(&t), vec!["city"]);
    assert_eq!(t.fields[0].aliases, vec!["town"]);
    assert_eq!(t.records[0].values.len(), 1);
    assert_eq!(t.find("town"), Some(0));
    assert_eq!(t.find("city"), Some(0));
    assert_eq!(t.find("village"), None);
    assert!(applied_quietly(&run(&mut t, "FILTER town MATCHING EQUALS A")));
    assert_eq!(discarded(&t), vec![false, true]);
    assert!(matches!(run(&mut t, "ALIAS city TO town"), Outcome::Misconfigured));
    assert!(matches!(run(&mut t, "ALIAS nowhere TO x"), Outcome::Misconfigured));
    assert_eq!(t.fields[0].aliases, vec!["town"]);
}

#[test]
fn rename_replaces_the_name_and_keeps_the_values() {
    let mut t = table(&["a", "b"], &[&["1", "2"]]);
    assert!(applied_quietly(&run(&mut t, "RENAME a TO c")));
    assert_eq!(names(&t), vec!["c", "b"]);
    assert_eq!(t.records[0].values, vec!["1", "2"]);
    assert!(matches!(run(&mut t, "RENAME a TO d"), Outcome::Misconfigured));
    assert!(matches!(run(&mut t, "RENAME c TO b"), Outcome::Misconfigured));
    assert_eq!(names(&t), vec!["c", "b"]);
}

#[test]
fn merge_concatenates_in_the_order_of_the_list() {
    let mut t = table(
        &["first", "mid", "last"],
        &[&["Ada", "x", "Lovelace"], &["Alan", "y", "Turing"]],
    );
    assert!(applied_quietly(&run(&mut t, "MERGE last,first TO name")));
    assert_eq!(names(&t), vec!["mid", "name"]);
    assert_eq!(t.fields[1].typed, Type::STRING);
    assert_eq!(column(&t, 0), vec!["x", "y"]);
    assert_eq!(column(&t, 1), vec!["LovelaceAda", "TuringAlan"]);
}

#[test]
fn merge_may_reuse_the_name_of_a_merged_field() {
    let mut t = table(&["a", "b", "c"], &[&["1", "2", "3"]]);
    assert!(applied_quietly(&run(&mut t, "MERGE a,b TO a")));
    assert_eq!(names(&t), vec!["c", "a"]);
    assert_eq!(t.records[0].values, vec!["3", "12"]);
    assert!(matches!(run(&mut t, "MERGE a TO c"), Outcome::Misconfigured));
    assert!(matches!(run(&mut t, "MERGE a,zzz TO d"), Outcome::Misconfigured));
    assert_eq!(names(&t), vec!["c", "a"]);
}

#[test]
fn ignore_drops_fields_and_columns() {
    let mut t = table(&["a", "b", "c"], &[&["1", "2", "3"], &["4", "5", "6"]]);
    assert!(applied_quietly(&run(&mut t, "IGNORE c,a")));
    assert_eq!(names(&t), vec!["b"]);
    assert_eq!(column(&t, 0), vec!["2", "5"]);
    assert!(matches!(run(&mut t, "IGNORE a"), Outcome::Misconfigured));
    assert_eq!(names(&t), vec!["b"]);
}

#[test]
fn distinct_keeps_the_first_of_each_value() {
    let mut t = table(&["city"], &[&["A"], &["B"], &["A"]]);
    assert!(applied_quietly(&run(&mut t, "DISTINCT city")));
    assert_eq!(discarded(&t), vec![false, false, true]);
    assert_eq!(column(&t, 0), vec!["A", "B", "A"]);
}

#[test]
fn distinct_twice_discards_nothing_further() {
    let mut t = table(
        &["city", "zip"],
        &[&["A", "1"], &["B", "1"], &["A", "1"], &["A", "2"], &["B", "1"], &["A", "2"]],
    );
    run(&mut t, "DISTINCT city,zip");
    let once = discarded(&t);
    assert_eq!(once, vec![false, false, true, false, true, true]);
    run(&mut t, "DISTINCT city,zip");
    assert_eq!(discarded(&t), once);
}

#[test]
fn distinct_does_not_count_discarded_records_as_seen() {
    let mut t = table(&["city", "n"], &[&["A", "1"], &["A", "5"], &["A", "7"]]);
    run(&mut t, "FILTER n MATCHING GREATER 3");
    assert_eq!(discarded(&t), vec![true, false, false]);
    run(&mut t, "DISTINCT city");
    assert_eq!(discarded(&t), vec![true, false, true]);
    assert!(matches!(run(&mut t, "DISTINCT town"), Outcome::Misconfigured));
}

#[test]
fn filter_discards_where_the_comparison_is_false() {
    let mut t = table(&["age"], &[&["10"], &["20"], &["30"]]);
    assert!(applied_quietly(&run(&mut t, "FILTER age MATCHING GREATER 18")));
    assert_eq!(discarded(&t), vec![true, false, false]);
    assert_eq!(column(&t, 0), vec!["10", "20", "30"]);
}

#[test]
fn filter_checks_every_listed_field() {
    let mut t = table(&["a", "b"], &[&["5", "5"], &["5", "1"], &["1", "5"], &["1", "1"]]);
    run(&mut t, "FILTER a,b MATCHING EQGREATER 5");
    assert_eq!(discarded(&t), vec![false, true, true, true]);
}

#[test]
fn filter_that_orders_texts_is_misconfigured() {
    let mut t = table(&["age"], &[&["10"], &["n/a"], &["30"]]);
    assert!(matches!(run(&mut t, "FILTER age MATCHING GREATER 18"), Outcome::Misconfigured));
    assert_eq!(discarded(&t), vec![false, false, false]);
    assert!(matches!(run(&mut t, "FILTER age MATCHING LESSER abc"), Outcome::Misconfigured));
    assert!(matches!(run(&mut t, "FILTER years MATCHING EQUALS 1"), Outcome::Misconfigured));
    assert!(applied_quietly(&run(&mut t, "FILTER age MATCHING DIFFERS n/a")));
    assert_eq!(discarded(&t), vec![false, true, false]);
    assert!(applied_quietly(&run(&mut t, "FILTER age MATCHING GREATER 18")));
    assert_eq!(discarded(&t), vec![true, true, false]);
}

#[test]
fn coerce_rescues_what_does_not_read_as_the_type() {
    let mut t = table(&["n"], &[&["5"], &["abc"], &["7"]]);
    assert!(applied_quietly(&run(&mut t, "COERCE n TYPED INTEGER RESCUE 0")));
    assert_eq!(column(&t, 0), vec!["5", "0", "7"]);
    assert_eq!(t.fields[0].typed, Type::INTEGER);
}

#[test]
fn coerce_touches_only_the_listed_fields() {
    let mut t = table(&["n", "m", "k"], &[&["x", "y", "1.5"], &["1", "z", "w"]]);
    run(&mut t, "COERCE n,k TYPED FLOAT RESCUE 0.0");
    assert_eq!(t.records[0].values, vec!["0.0", "y", "1.5"]);
    assert_eq!(t.records[1].values, vec!["1", "z", "0.0"]);
    assert_eq!(t.fields[0].typed, Type::FLOAT);
    assert_eq!(t.fields[1].typed, Type::STRING);
    assert_eq!(t.fields[2].typed, Type::FLOAT);
    run(&mut t, "COERCE m TYPED BOOLEAN RESCUE false");
    assert_eq!(column(&t, 1), vec!["false", "false"]);
    assert!(matches!(run(&mut t, "COERCE q TYPED INTEGER RESCUE 0"), Outcome::Misconfigured));
}

#[test]
fn validate_discards_on_failure() {
    let mut t = table(&["email"], &[&["ada@example.org"], &["not-an-email"]]);
    assert!(applied_quietly(&run(&mut t, "VALIDATE email MATCHING EMAIL OR DISCARD")));
    assert_eq!(discarded(&t), vec![false, true]);
}

#[test]
fn validate_notifies_and_keeps() {
    let mut t = table(&["email"], &[&["x"], &["ada@example.org"], &["y"]]);
    match run(&mut t, "VALIDATE email MATCHING EMAIL OR NOTIFY") {
        Outcome::Applied(reported) => {
            assert_eq!(reported.len(), 2);
            assert_eq!((reported[0].record, reported[0].field.as_str()), (0, "email"));
            assert_eq!(reported[0].format, Format::EMAIL);
            assert_eq!(reported[1].record, 2);
        }
        other => panic!("unexpected: {:?}", other),
    }
    assert_eq!(discarded(&t), vec![false, false, false]);
}

#[test]
fn validate_halts_on_the_first_failure() {
    let mut t = table(&["when"], &[&["2024-01-01"], &["soon"], &["later"]]);
    match run(&mut t, "VALIDATE when MATCHING DATE OR HALT") {
        Outcome::Halted(failure) => {
            assert_eq!(failure.record, 1);
            assert_eq!(failure.field, "when");
            assert_eq!(failure.format, Format::DATE);
        }
        other => panic!("unexpected: {:?}", other),
    }
    assert_eq!(discarded(&t), vec![false, false, false]);
}

#[test]
fn validate_passes_over_discarded_records() {
    let mut t = table(&["when"], &[&["2024-01-01"], &["soon"]]);
    run(&mut t, "FILTER when MATCHING DIFFERS soon");
    assert_eq!(discarded(&t), vec![false, true]);
    assert!(applied_quietly(&run(&mut t, "VALIDATE when MATCHING DATE OR HALT")));
    assert!(applied_quietly(&run(&mut t, "VALIDATE when MATCHING DATE OR NOTIFY")));
    assert!(matches!(
        run(&mut t, "VALIDATE whenever MATCHING DATE OR HALT"),
        Outcome::Misconfigured
    ));
}

#[test]
fn nothing_brings_a_discarded_record_back() {
    let mut t = table(&["a", "b"], &[&["1", "x"], &["2", "y"]]);
    run(&mut t, "FILTER a MATCHING EQUALS 2");
    assert_eq!(discarded(&t), vec![true, false]);
    for line in [
        "ADD c TYPED STRING DEFAULT z",
        "ALIAS a TO aa",
        "RENAME b TO bb",
        "COERCE a TYPED INTEGER RESCUE 0",
        "FILTER a MATCHING LESSER 9",
        "DISTINCT a",
        "VALIDATE a MATCHING UUID OR NOTIFY",
        "MERGE a,bb TO m",
        "IGNORE c",
    ] {
        run(&mut t, line);
        assert!(t.records[0].discarded);
        assert_eq!(t.records.len(), 2);
        assert_eq!(t.records[0].id, 0);
        assert_eq!(t.records[1].id, 1);
    }
    assert_eq!(names(&t), vec!["m"]);
    assert_eq!(column(&t, 0), vec!["1x", "2y"]);
}
