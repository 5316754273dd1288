use dft::adapters::input::csv::Adapter as Reader;
use dft::adapters::input::{InputAdapter, ReadError};
use dft::adapters::output::csv::Adapter as TextWriter;
use dft::adapters::output::json::Adapter as JsonWriter;
use dft::adapters::output::sql::Adapter as SqlWriter;
use dft::adapters::output::{find_mistyped, Optionals, Output, OutputAdapter, WriteError};
use dft::cli::{Cli, InputFormat, OutputFormat};
use dft::error::ParseError;
use dft::grammar::Type;
use dft::process::{Event, Process, RunError, Stage};
use dft::table::LoadError;

fn strings(items: &[&str]) -> Vec<String> {
    items.iter().map(|s| s.to_string()).collect()
}

fn grid(rows: &[&[&str]]) -> Vec<Vec<String>> {
    rows.iter().map(|row| strings(row)).collect()
}

fn csv_of(header: &[&str], rows: &[&[&str]]) -> Vec<u8> {
    let mut writer = csv::Writer::from_writer(Vec::new());
    writer.write_record(header).unwrap();
    for row in rows {
        writer.write_record(row.iter()).unwrap();
    }
    writer.into_inner().unwrap()
}

fn loaded(lines: &[&str], header: &[&str], rows: &[&[&str]]) -> Process {
    let mut process = Process::new();
    process.read_instructions(&strings(lines)).unwrap();
    process.read_records(&csv_of(header, rows), InputFormat::CSV).unwrap();
    process
}

fn ran(lines: &[&str], header: &[&str], rows: &[&[&str]]) -> Process {
    let mut process = loaded(lines, header, rows);
    process.run().unwrap();
    process.log().unwrap();
    process
}

fn options() -> Optionals {
    Optionals { tname: "people".to_string(), ispaces: 2 }
}

#[test]
fn a_new_process_is_empty() {
    let process = Process::new();
    assert!(process.instructions.is_empty());
    assert!(process.table.fields.is_empty());
    assert!(process.table.records.is_empty());
    assert!(process.logs.is_empty());
    assert!(process.notices.is_empty());
    assert!(!process.halted);
    assert_eq!(process.stage, Stage::Idle);
}

#[test]
fn instructions_load_all_or_nothing() {
    let mut process = Process::new();
    assert_eq!(process.read_instructions(&strings(&["IGNORE a", "", "DISTINCT b"])).unwrap(), 2);
    let bad = process.read_instructions(&strings(&["IGNORE c", "WHAT"]));
    assert!(matches!(bad, Err(RunError::Instructions(ParseError::UnknownInstruction(_, 2)))));
    assert_eq!(process.instructions.len(), 2);
    assert_eq!(process.read_instructions(&strings(&["IGNORE d"])).unwrap(), 3);
    assert_eq!(process.instructions[2].to_string(), "IGNORE d");
}

#[test]
fn records_load_or_fail_without_a_trace() {
    let mut process = Process::new();
    assert_eq!(process.read_records(b"a\n1\n2\n", InputFormat::CSV).unwrap(), 2);
    assert_eq!(process.table.fields[0].name, "a");
    assert_eq!(process.table.records[1].values, vec!["2"]);
    assert_eq!(process.table.records[1].id, 1);
    assert!(matches!(
        process.read_records(b"a,b\n1\n", InputFormat::CSV),
        Err(RunError::Undecodable(_))
    ));
    assert!(matches!(
        process.read_records(b"a,a\n1,2\n", InputFormat::CSV),
        Err(RunError::Records(LoadError::RepeatedName(1)))
    ));
    assert!(matches!(
        process.read_records(b"\xff\n1\n", InputFormat::CSV),
        Err(RunError::Undecodable(_))
    ));
    assert_eq!(process.table.records.len(), 2);
    assert_eq!(process.read_records(b"x,y\n", InputFormat::CSV).unwrap(), 0);
    assert_eq!(process.table.fields.len(), 2);
}

#[test]
fn csv_is_read_as_the_crate_reads_it() {
    let reader = Reader;
    let table = reader.read(b"name,note\n\"Lovelace, Ada\",\"said \"\"hi\"\"\"\nAlan,\n").unwrap();
    assert_eq!(table.fields.len(), 2);
    assert_eq!(table.fields[1].name, "note");
    assert_eq!(table.records[0].values, vec!["Lovelace, Ada", "said \"hi\""]);
    assert_eq!(table.records[1].values, vec!["Alan", ""]);
    assert!(table.is_wf());
    let empty = reader.read(b"").unwrap();
    assert!(empty.fields.is_empty() && empty.records.is_empty());
    assert!(matches!(reader.read(b"a,b\n1,2,3\n"), Err(ReadError::Undecodable(_))));
    assert!(matches!(
        reader.read(b"a,b,a\n"),
        Err(ReadError::Table(LoadError::RepeatedName(2)))
    ));
}

#[test]
fn csv_is_written_as_the_crate_writes_it() {
    let table = Reader.read(b"name,note\n\"Lovelace, Ada\",\"said \"\"hi\"\"\"\nAlan,\n").unwrap();
    match TextWriter.write(&table, &options()).unwrap() {
        Output::Csv(bytes) => assert_eq!(
            String::from_utf8(bytes).unwrap(),
            "name,note\n\"Lovelace, Ada\",\"said \"\"hi\"\"\"\nAlan,\n"
        ),
        other => panic!("unexpected: {:?}", other),
    }
    assert_eq!(
        TextWriter.rows(&table).unwrap(),
        grid(&[&["name", "note"], &["Lovelace, Ada", "said \"hi\""], &["Alan", ""]])
    );
}

#[test]
fn every_instruction_gets_one_log_entry() {
    let mut process = loaded(
        &["ADD c TYPED STRING DEFAULT x", "IGNORE nothing", "FILTER a MATCHING GREATER 1"],
        &["a"],
        &[&["1"], &["2"]],
    );
    assert_eq!(process.run().unwrap(), 3);
    assert_eq!(
        process.logs,
        vec![
            "Executing: ADD c TYPED STRING DEFAULT x (applied)",
            "Executing: IGNORE nothing (misconfigured)",
            "Executing: FILTER a MATCHING GREATER 1 (applied)",
        ]
    );
    assert_eq!(process.log().unwrap(), process.logs);
    assert!(!process.halted);
    assert!(process.notices.is_empty());
    assert!(process.table.records[0].discarded);
    assert!(!process.table.records[1].discarded);
}

#[test]
fn instructions_see_what_earlier_ones_left() {
    let mut process = loaded(
        &["RENAME a TO b", "COERCE b TYPED INTEGER RESCUE 0", "FILTER b MATCHING DIFFERS 0"],
        &["a"],
        &[&["1"], &["x"]],
    );
    assert_eq!(process.run().unwrap(), 3);
    assert_eq!(process.table.fields[0].name, "b");
    assert_eq!(process.table.fields[0].typed, Type::INTEGER);
    assert_eq!(process.table.records[1].values, vec!["0"]);
    assert!(process.table.records[1].discarded);
    assert!(!process.table.records[0].discarded);
}

#[test]
fn halt_stops_what_follows_and_keeps_what_was_done() {
    let mut process = loaded(
        &[
            "ADD seen TYPED STRING DEFAULT yes",
            "VALIDATE email MATCHING EMAIL OR HALT",
            "IGNORE email",
            "ADD late TYPED STRING DEFAULT no",
        ],
        &["email"],
        &[&["ada@example.org"], &["not-an-email"]],
    );
    assert_eq!(process.run().unwrap(), 2);
    assert!(process.halted);
    assert_eq!(process.logs.len(), 2);
    assert_eq!(
        process.logs[1],
        "Executing: VALIDATE email MATCHING EMAIL OR HALT (halted); record 1 fails EMAIL"
    );
    assert_eq!(process.table.fields.len(), 2);
    assert_eq!(process.table.fields[1].name, "seen");
    assert_eq!(process.notices.len(), 1);
    assert_eq!(process.notices[0].record, 1);
    assert!(matches!(process.run(), Err(RunError::OutOfOrder(Stage::Running))));
    assert_eq!(process.table.fields.len(), 2);
    assert_eq!(process.log().unwrap().len(), 2);
    match process.write_result(OutputFormat::CSV, &options()).unwrap() {
        Output::Csv(bytes) => assert_eq!(
            String::from_utf8(bytes).unwrap(),
            "email,seen\nada@example.org,yes\nnot-an-email,yes\n"
        ),
        other => panic!("unexpected: {:?}", other),
    }
}

#[test]
fn notify_collects_and_discard_marks() {
    let mut process = loaded(
        &["VALIDATE email MATCHING EMAIL OR NOTIFY", "VALIDATE email MATCHING EMAIL OR DISCARD"],
        &["email"],
        &[&["ada@example.org"], &["not-an-email"]],
    );
    assert_eq!(process.run().unwrap(), 2);
    assert!(!process.halted);
    assert_eq!(
        process.logs,
        vec![
            "Executing: VALIDATE email MATCHING EMAIL OR NOTIFY (applied); record 1 fails EMAIL",
            "Executing: VALIDATE email MATCHING EMAIL OR DISCARD (applied)",
        ]
    );
    assert_eq!(process.notices.len(), 1);
    assert_eq!(process.notices[0].field, "email");
    assert!(process.table.records[1].discarded);
    process.log().unwrap();
    match process.write_result(OutputFormat::CSV, &options()).unwrap() {
        Output::Csv(bytes) => assert_eq!(bytes, b"email\nada@example.org\n"),
        other => panic!("unexpected: {:?}", other),
    }
}

#[test]
fn every_reported_failure_is_in_the_log() {
    let mut process = loaded(
        &["VALIDATE when MATCHING DATE OR NOTIFY"],
        &["when"],
        &[&["soon"], &["2024-01-01"], &["later"], &["2024-01-02"], &["never"], &["x"], &["y"],
            &["z"], &["a"], &["b"], &["c"]],
    );
    assert_eq!(process.run().unwrap(), 1);
    assert_eq!(
        process.logs[0],
        "Executing: VALIDATE when MATCHING DATE OR NOTIFY (applied); record 0 fails DATE; \
         record 2 fails DATE; record 4 fails DATE; record 5 fails DATE; record 6 fails DATE; \
         record 7 fails DATE; record 8 fails DATE; record 9 fails DATE; record 10 fails DATE"
    );
    assert_eq!(process.notices.len(), 9);
}

#[test]
fn output_skips_discarded_records() {
    let lines = ["FILTER age MATCHING GREATER 18"];
    let rows: [&[&str]; 3] = [&["10"], &["20"], &["30"]];
    let mut process = ran(&lines, &["age"], &rows);
    match process.write_result(OutputFormat::CSV, &options()).unwrap() {
        Output::Csv(bytes) => assert_eq!(bytes, b"age\n20\n30\n"),
        other => panic!("unexpected: {:?}", other),
    }
    let mut process = ran(&lines, &["age"], &rows);
    match process.write_result(OutputFormat::SQL, &options()).unwrap() {
        Output::Sql(lines) => assert_eq!(
            lines,
            vec![
                "INSERT INTO people (age) VALUES ('20');",
                "INSERT INTO people (age) VALUES ('30');",
            ]
        ),
        other => panic!("unexpected: {:?}", other),
    }
    let mut process = ran(&lines, &["age"], &rows);
    match process.write_result(OutputFormat::JSON, &options()).unwrap() {
        Output::Json(text) => assert_eq!(
            text,
            "[\n  {\n    \"age\": \"20\"\n  },\n  {\n    \"age\": \"30\"\n  }\n]"
        ),
        other => panic!("unexpected: {:?}", other),
    }
}

#[test]
fn distinct_output_keeps_the_order() {
    let process = ran(&["DISTINCT city"], &["city"], &[&["A"], &["B"], &["A"]]);
    let rows = TextWriter.rows(&process.table).unwrap();
    assert_eq!(rows, grid(&[&["city"], &["A"], &["B"]]));
    match TextWriter.write(&process.table, &options()).unwrap() {
        Output::Csv(bytes) => assert_eq!(bytes, b"city\nA\nB\n"),
        other => panic!("unexpected: {:?}", other),
    }
}

#[test]
fn cells_carry_the_declared_type() {
    let mut process = loaded(
        &[
            "COERCE n TYPED INTEGER RESCUE 0",
            "COERCE x TYPED FLOAT RESCUE 0.0",
            "COERCE b TYPED BOOLEAN RESCUE f",
        ],
        &["n", "x", "b", "s"],
        &[&["-7", "1.50", "t", "text"], &["bad", "bad", "bad", ""]],
    );
    process.run().unwrap();
    let document = JsonWriter.document(&process.table).unwrap();
    assert_eq!(
        document.dump(),
        "[{\"n\":-7,\"x\":1.5,\"b\":true,\"s\":\"text\"},\
         {\"n\":0,\"x\":0,\"b\":false,\"s\":\"\"}]"
    );
    match JsonWriter.write(&process.table, &options()).unwrap() {
        Output::Json(text) => assert_eq!(text, document.pretty(2)),
        other => panic!("unexpected: {:?}", other),
    }
    let lines = SqlWriter.lines(&process.table, &options()).unwrap();
    assert_eq!(lines[0], "INSERT INTO people (n, x, b, s) VALUES (-7, 1.50, t, 'text');");
    assert_eq!(lines[1], "INSERT INTO people (n, x, b, s) VALUES (0, 0.0, f, '');");
}

#[test]
fn json_is_indented_as_far_as_it_can_be_printed() {
    let lines = ["IGNORE b"];
    let rows: [&[&str]; 1] = [&["1", "2"]];
    let process = ran(&lines, &["a", "b"], &rows);
    let widest = Optionals { tname: "t".to_string(), ispaces: 32767 };
    match JsonWriter.write(&process.table, &widest).unwrap() {
        Output::Json(text) => {
            let one = " ".repeat(32767);
            let two = " ".repeat(65534);
            assert_eq!(text, format!("[\n{}{{\n{}\"a\": \"1\"\n{}}}\n]", one, two, one));
        }
        other => panic!("unexpected: {:?}", other),
    }
    for asked in [32768u16, 40000, u16::MAX] {
        let wider = Optionals { tname: "t".to_string(), ispaces: asked };
        assert!(matches!(
            JsonWriter.write(&process.table, &wider),
            Err(WriteError::Indent(n)) if n == asked
        ));
        assert!(TextWriter.write(&process.table, &wider).is_ok());
        assert!(SqlWriter.write(&process.table, &wider).is_ok());
        let mut run = ran(&lines, &["a", "b"], &rows);
        assert!(matches!(
            run.write_result(OutputFormat::JSON, &wider),
            Err(RunError::Indent(n)) if n == asked
        ));
        assert_eq!(run.stage, Stage::Logged);
        assert!(run.write_result(OutputFormat::CSV, &wider).is_ok());
    }
    let none = Optionals { tname: "t".to_string(), ispaces: 0 };
    match JsonWriter.write(&process.table, &none).unwrap() {
        Output::Json(text) => assert_eq!(text, "[\n{\n\"a\": \"1\"\n}\n]"),
        other => panic!("unexpected: {:?}", other),
    }
}

#[test]
fn options_fail_before_values_do() {
    let mut process = loaded(
        &["COERCE n TYPED INTEGER RESCUE none"],
        &["n"],
        &[&["x"]],
    );
    process.run().unwrap();
    let wider = Optionals { tname: "t".to_string(), ispaces: 50000 };
    assert!(matches!(
        JsonWriter.write(&process.table, &wider),
        Err(WriteError::Indent(50000))
    ));
    assert!(matches!(
        JsonWriter.write(&process.table, &options()),
        Err(WriteError::Mistyped(_))
    ));
}

#[test]
fn json_numbers_keep_their_value() {
    let mut process = loaded(
        &["COERCE n TYPED INTEGER RESCUE 0", "COERCE x TYPED FLOAT RESCUE 0"],
        &["n", "x"],
        &[
            &["-9223372036854775808", "-0.5"],
            &["9223372036854775807", "12.000"],
            &["+7", "0.000000000000000001"],
            &["007", "-0"],
            &["1.5", "1e3"],
        ],
    );
    process.run().unwrap();
    let document = JsonWriter.document(&process.table).unwrap();
    assert_eq!(
        document.dump(),
        "[{\"n\":-9223372036854775808,\"x\":-0.5},\
         {\"n\":9223372036854775807,\"x\":12},\
         {\"n\":7,\"x\":1e-18},\
         {\"n\":7,\"x\":0},\
         {\"n\":0,\"x\":0}]"
    );
    let mut none = loaded(&["FILTER n MATCHING EQUALS 1"], &["n"], &[&["2"]]);
    none.run().unwrap();
    assert_eq!(JsonWriter.document(&none.table).unwrap().dump(), "[]");
}

#[test]
fn output_fails_on_a_value_that_does_not_read_as_declared() {
    let mut process = loaded(
        &["COERCE n TYPED INTEGER RESCUE none", "FILTER id MATCHING DIFFERS 1"],
        &["id", "n"],
        &[&["1", "x"], &["2", "5"], &["3", "y"], &["4", "z"]],
    );
    process.run().unwrap();
    process.log().unwrap();
    assert_eq!(find_mistyped(&process.table), Some((2, 1)));
    assert!(matches!(
        TextWriter.write(&process.table, &options()),
        Err(WriteError::Mistyped(failed)) if failed.record == 2 && failed.field == "n"
    ));
    assert!(matches!(
        SqlWriter.write(&process.table, &options()),
        Err(WriteError::Mistyped(failed)) if failed.record == 2
    ));
    assert!(matches!(
        JsonWriter.write(&process.table, &options()),
        Err(WriteError::Mistyped(failed)) if failed.field == "n"
    ));
    assert!(TextWriter.rows(&process.table).is_err());
    assert!(JsonWriter.document(&process.table).is_err());
    assert!(SqlWriter.lines(&process.table, &options()).is_err());
    for format in [OutputFormat::CSV, OutputFormat::SQL, OutputFormat::JSON] {
        match process.write_result(format, &options()) {
            Err(RunError::Mistyped(failed)) => {
                assert_eq!(failed.record, 2);
                assert_eq!(failed.field, "n");
            }
            other => panic!("unexpected: {:?}", other),
        }
        assert_eq!(process.stage, Stage::Logged);
    }
}

#[test]
fn sql_pieces_have_their_wording() {
    let writer = SqlWriter;
    assert_eq!(writer.parse_value(&Type::STRING, "a b".to_string()), "'a b'");
    assert_eq!(writer.parse_value(&Type::INTEGER, "5".to_string()), "5");
    assert_eq!(writer.parse_value(&Type::FLOAT, "5.5".to_string()), "5.5");
    assert_eq!(writer.parse_value(&Type::BOOLEAN, "t".to_string()), "t");
    assert_eq!(
        writer.build_statement(&"t".to_string(), strings(&["a", "b"]), strings(&["1", "'x'"])),
        "INSERT INTO t (a, b) VALUES (1, 'x');"
    );
    assert_eq!(
        writer.build_statement(&"t".to_string(), Vec::new(), Vec::new()),
        "INSERT INTO t () VALUES ();"
    );
}

#[test]
fn stages_follow_in_order() {
    assert_eq!(Stage::Idle.on(Event::Load), Some(Stage::Loading));
    assert_eq!(Stage::Loading.on(Event::Load), Some(Stage::Loading));
    assert_eq!(Stage::Loading.on(Event::Run), Some(Stage::Running));
    assert_eq!(Stage::Running.on(Event::Log), Some(Stage::Logged));
    assert_eq!(Stage::Logged.on(Event::Write), Some(Stage::Written));
    assert_eq!(Stage::Written.on(Event::Finish), Some(Stage::Done));
    assert_eq!(Stage::Idle.on(Event::Run), None);
    assert_eq!(Stage::Running.on(Event::Load), None);
    assert_eq!(Stage::Running.on(Event::Run), None);
    assert_eq!(Stage::Running.on(Event::Write), None);
    assert_eq!(Stage::Logged.on(Event::Log), None);
    assert_eq!(Stage::Written.on(Event::Write), None);
    assert_eq!(Stage::Done.on(Event::Finish), None);
    assert_eq!(Stage::Done.on(Event::Load), None);
}

#[test]
fn a_run_goes_through_its_phases_once() {
    let mut process = Process::new();
    assert!(matches!(process.run(), Err(RunError::OutOfOrder(Stage::Idle))));
    assert!(matches!(process.log(), Err(RunError::OutOfOrder(Stage::Idle))));
    assert!(matches!(process.finish(), Err(RunError::OutOfOrder(Stage::Idle))));
    process.read_instructions(&strings(&["IGNORE b"])).unwrap();
    assert_eq!(process.stage, Stage::Loading);
    process.read_records(b"a,b\n1,2\n", InputFormat::CSV).unwrap();
    assert_eq!(process.stage, Stage::Loading);
    assert!(matches!(
        process.write_result(OutputFormat::CSV, &options()),
        Err(RunError::OutOfOrder(Stage::Loading))
    ));
    assert_eq!(process.run().unwrap(), 1);
    assert_eq!(process.stage, Stage::Running);
    assert!(matches!(
        process.read_instructions(&strings(&["IGNORE a"])),
        Err(RunError::OutOfOrder(Stage::Running))
    ));
    assert!(matches!(
        process.read_records(b"z\n", InputFormat::CSV),
        Err(RunError::OutOfOrder(Stage::Running))
    ));
    assert_eq!(process.instructions.len(), 1);
    assert_eq!(process.log().unwrap(), vec!["Executing: IGNORE b (applied)"]);
    assert_eq!(process.stage, Stage::Logged);
    assert!(process.write_result(OutputFormat::SQL, &options()).is_ok());
    assert_eq!(process.stage, Stage::Written);
    assert!(matches!(
        process.write_result(OutputFormat::SQL, &options()),
        Err(RunError::OutOfOrder(Stage::Written))
    ));
    process.finish().unwrap();
    assert_eq!(process.stage, Stage::Done);
    assert!(matches!(process.finish(), Err(RunError::OutOfOrder(Stage::Done))));
}

#[test]
fn a_malformed_table_is_not_worked_on() {
    let mut process = loaded(&["IGNORE a"], &["a"], &[&["1"]]);
    process.table.records[0].values.push("stray".to_string());
    assert!(matches!(process.run(), Err(RunError::Malformed)));
    assert_eq!(process.stage, Stage::Loading);
    assert!(process.logs.is_empty());
    process.table.records[0].values.pop();
    assert_eq!(process.run().unwrap(), 1);
    process.log().unwrap();
    process.table.fields.push(dft::table::Field::new("late"));
    assert!(matches!(
        process.write_result(OutputFormat::CSV, &options()),
        Err(RunError::Malformed)
    ));
    assert_eq!(process.stage, Stage::Logged);
}

fn cli() -> Cli {
    Cli {
        undo: false,
        overwrite: false,
        verbose: 0,
        input: None,
        output: None,
        from: None,
        to: None,
        instructions: "instructions.dft".to_string(),
        logger: None,
        format: None,
        tname: "table_name".to_string(),
        ispaces: 4,
    }
}

#[test]
fn formats_come_from_the_flag_then_the_direction_then_the_file() {
    let mut args = cli();
    assert_eq!(args.iformat().unwrap_err().0, "");
    assert_eq!(args.oformat().unwrap_err().0, "");
    args.input = Some("data.old.csv".to_string());
    args.output = Some("out.json".to_string());
    assert_eq!(args.iformat().unwrap(), InputFormat::CSV);
    assert_eq!(args.oformat().unwrap(), OutputFormat::JSON);
    args.to = Some("sql".to_string());
    assert_eq!(args.oformat().unwrap(), OutputFormat::SQL);
    args.from = Some("xml".to_string());
    assert_eq!(args.iformat().unwrap_err().0, "xml");
    args.format = Some("csv".to_string());
    assert_eq!(args.iformat().unwrap(), InputFormat::CSV);
    assert_eq!(args.oformat().unwrap(), OutputFormat::CSV);
    args.format = Some("CSV".to_string());
    assert_eq!(args.iformat().unwrap_err().0, "CSV");
    args.format = None;
    args.from = None;
    args.input = Some("noextension".to_string());
    assert_eq!(args.iformat().unwrap_err().0, "noextension");
}

#[test]
fn optionals_are_handed_on() {
    let mut args = cli();
    args.tname = "people".to_string();
    args.ispaces = 2;
    let optionals = args.optionals();
    assert_eq!(optionals.tname, "people");
    assert_eq!(optionals.ispaces, 2);
}

#[test]
fn format_names_are_read_in_any_case() {
    assert_eq!(InputFormat::from_str("csv"), Ok(InputFormat::CSV));
    assert_eq!(InputFormat::from_str("Csv"), Ok(InputFormat::CSV));
    assert_eq!(InputFormat::from_str("json"), Err("json".to_string()));
    assert_eq!(OutputFormat::from_str("json"), Ok(OutputFormat::JSON));
    assert_eq!(OutputFormat::from_str("SQL"), Ok(OutputFormat::SQL));
    assert_eq!(OutputFormat::from_str("csv"), Ok(OutputFormat::CSV));
    assert_eq!(OutputFormat::from_str("xml"), Err("xml".to_string()));
    assert_eq!(OutputFormat::from_upper("JSON"), Some(OutputFormat::JSON));
    assert_eq!(OutputFormat::from_upper("json"), None);
    assert_eq!(InputFormat::from_upper("CSV"), Some(InputFormat::CSV));
    assert_eq!(InputFormat::from_name("csv"), Some(InputFormat::CSV));
    assert_eq!(OutputFormat::from_name("sql"), Some(OutputFormat::SQL));
    assert_eq!(OutputFormat::from_name("SQL"), None);
    assert_eq!(OutputFormat::JSON.to_string(), "json");
    assert_eq!(InputFormat::CSV.to_string(), "csv");
}
