use dft::table::{Field, Table};
use dft::text::{copy_strings, to_chars};
use dft::validators::token_at;

fn strings(items: &[&str]) -> Vec<String> {
    items.iter().map(|s| s.to_string()).collect()
}

fn sample() -> Table {
    let rows = vec![strings(&["1", "2", "3"])];
    Table::load(&strings(&["a", "b", "c"]), &rows).unwrap()
}

#[test]
fn names_resolve_to_positions_in_the_order_asked() {
    let mut table = sample();
    table.fields[2].aliases.push("last".to_string());
    assert_eq!(table.resolve(&strings(&["last", "a", "c", "a"])), Some(vec![2, 0, 2, 0]));
    assert_eq!(table.resolve(&strings(&["a", "nope"])), None);
    assert_eq!(table.resolve(&Vec::new()), Some(Vec::new()));
    assert_eq!(table.find("b"), Some(1));
    assert_eq!(table.find("B"), None);
}

#[test]
fn the_first_field_that_answers_is_the_one_found() {
    let mut table = sample();
    table.fields[0].aliases.push("c".to_string());
    assert_eq!(table.find("c"), Some(0));
    assert!(!table.names_differ());
    assert!(!table.is_wf());
    assert!(table.fields[0].overlaps(&table.fields[2]));
    assert!(table.fields[2].overlaps(&table.fields[0]));
    assert!(!table.fields[0].overlaps(&table.fields[1]));
}

#[test]
fn a_field_answers_to_its_name_and_its_aliases() {
    let mut field = Field::new("city");
    field.aliases.push("town".to_string());
    field.aliases.push("place".to_string());
    assert!(field.answers_to("city"));
    assert!(field.answers_to("town"));
    assert!(field.answers_to("place"));
    assert!(!field.answers_to("cit"));
    assert!(!field.answers_to(""));
    let copy = field.duplicate();
    assert_eq!(copy.name, "city");
    assert_eq!(copy.aliases, vec!["town", "place"]);
    assert_eq!(copy.typed, field.typed);
}

#[test]
fn an_empty_table_is_well_formed() {
    let table = Table::new();
    assert!(table.is_wf());
    assert!(table.names_differ());
    assert_eq!(table.find("a"), None);
    let only_header = Table::load(&strings(&["a"]), &Vec::new()).unwrap();
    assert!(only_header.is_wf());
    assert_eq!(only_header.records.len(), 0);
}

#[test]
fn small_helpers_keep_their_content() {
    assert_eq!(to_chars("añb"), vec!['a', 'ñ', 'b']);
    assert!(to_chars("").is_empty());
    let source = strings(&["x", "", "y z"]);
    assert_eq!(copy_strings(&source), source);
    assert_eq!(token_at(&source, 2), Some(&"y z".to_string()));
    assert_eq!(token_at(&source, 3), None);
}
