//! A run: the instructions that were loaded, the table they work on, and the
//! audit log of what was carried out.

use crate::adapters::input::{InputAdapter, ReadError};
use crate::adapters::output::{
    first_mistyped, reports, row_ok, well_typed, Mistyped, Optionals, Output, OutputAdapter,
    WriteError,
};
use crate::cli::{InputFormat, OutputFormat};
use crate::engine::{Executable, Failure, FailureView, Outcome, OutcomeView};
use crate::error::{ParseError, ParseErrorView};
use crate::instructions::{Instruction, InstructionView};
use crate::parser::{parse_lines, InstructionParser};
use crate::table::{LoadError, Table, TableView};
use crate::text::{copy_strings, decimal, render_number};
use vstd::prelude::*;
use vstd::string::*;

verus! {

/// The phases of a run, in order.
#[derive(Clone, Copy, Debug, PartialEq, Eq, Structural)]
pub enum Stage {
    /// Nothing has happened.
    Idle,
    /// Instructions or records have been loaded.
    Loading,
    /// The instructions have been carried out.
    Running,
    /// The audit log has been handed out.
    Logged,
    /// The result has been handed out.
    Written,
    /// The run is over.
    Done,
}

/// What a caller asks of a run.
#[derive(Clone, Copy, Debug, PartialEq, Eq, Structural)]
pub enum Event {
    /// Load instructions or records.
    Load,
    /// Carry the instructions out.
    Run,
    /// Hand out the audit log.
    Log,
    /// Hand out the result.
    Write,
    /// End the run.
    Finish,
}

impl Stage {
    /// The place of the phase in the order of phases.
    pub open spec fn rank(self) -> int {
        match self {
            Stage::Idle => 0,
            Stage::Loading => 1,
            Stage::Running => 2,
            Stage::Logged => 3,
            Stage::Written => 4,
            Stage::Done => 5,
        }
    }

    /// The phase that an event leads to, where the event fits the phase.
    /// Loading may be repeated; every other phase is entered once, from the
    /// phase before it.
    pub open spec fn after(self, event: Event) -> Option<Stage> {
        match (self, event) {
            (Stage::Idle, Event::Load) => Some(Stage::Loading),
            (Stage::Loading, Event::Load) => Some(Stage::Loading),
            (Stage::Loading, Event::Run) => Some(Stage::Running),
            (Stage::Running, Event::Log) => Some(Stage::Logged),
            (Stage::Logged, Event::Write) => Some(Stage::Written),
            (Stage::Written, Event::Finish) => Some(Stage::Done),
            _ => None,
        }
    }

    /// The phase that an event leads to, where the event fits the phase.
    pub fn on(self, event: Event) -> (r: Option<Stage>)
        ensures
            r == self.after(event),
    {
        match (self, event) {
            (Stage::Idle, Event::Load) => Some(Stage::Loading),
            (Stage::Loading, Event::Load) => Some(Stage::Loading),
            (Stage::Loading, Event::Run) => Some(Stage::Running),
            (Stage::Running, Event::Log) => Some(Stage::Logged),
            (Stage::Logged, Event::Write) => Some(Stage::Written),
            (Stage::Written, Event::Finish) => Some(Stage::Done),
            _ => None,
        }
    }
}

/// Why a call on a run failed.
#[derive(Debug)]
pub enum RunError {
    /// The call does not fit the phase that the run is in.
    OutOfOrder(Stage),
    /// The instructions could not be read.
    Instructions(ParseError),
    /// The input cannot be decoded.
    Undecodable(::csv::Error),
    /// The records of the input make no table.
    Records(LoadError),
    /// The table is not well formed.
    Malformed,
    /// A stored value does not read as the declared type of its field.
    Mistyped(Mistyped),
    /// The output cannot be encoded.
    Unwritable(::csv::Error),
    /// The indentation asked for, which is wider than the format can print.
    Indent(u16),
}

/// The word by which the audit log names an outcome.
pub open spec fn outcome_label(outcome: OutcomeView) -> Seq<char> {
    match outcome {
        OutcomeView::Applied(_) => "applied"@,
        OutcomeView::Misconfigured => "misconfigured"@,
        OutcomeView::Halted(_) => "halted"@,
    }
}

/// What the audit log says of one failure: the record and the format it fails.
pub open spec fn note(failure: FailureView) -> Seq<char> {
    "; record "@ + decimal(failure.record as nat) + " fails "@ + failure.format.keyword()
}

/// What the audit log says of failures, in order.
pub open spec fn notes(failures: Seq<FailureView>) -> Seq<char>
    decreases failures.len(),
{
    if failures.len() == 0 {
        Seq::<char>::empty()
    } else {
        notes(failures.drop_last()) + note(failures.last())
    }
}

/// The entry that the audit log receives for one executed instruction: the
/// instruction, how it ended, and the failures it reported or halted on.
pub open spec fn log_entry(instruction: InstructionView, outcome: OutcomeView) -> Seq<char> {
    "Executing: "@ + instruction.line() + " ("@ + outcome_label(outcome) + ")"@ + notes(
        raised(outcome),
    )
}

/// The failures that an outcome brings with it.
pub open spec fn raised(outcome: OutcomeView) -> Seq<FailureView> {
    match outcome {
        OutcomeView::Applied(reported) => reported,
        OutcomeView::Misconfigured => Seq::<FailureView>::empty(),
        OutcomeView::Halted(failure) => seq![failure],
    }
}

/// What a run has made so far.
pub struct RunState {
    pub table: TableView,
    pub logs: Seq<Seq<char>>,
    pub notices: Seq<FailureView>,
    pub halted: bool,
}

/// The state after one more instruction. A halted run takes no instruction;
/// otherwise the instruction works on the table as it stands, and the log
/// gains exactly one entry.
pub open spec fn after(state: RunState, instruction: InstructionView) -> RunState {
    if state.halted {
        state
    } else {
        let step = instruction.effect(state.table);
        RunState {
            table: step.table,
            logs: state.logs.push(log_entry(instruction, step.outcome)),
            notices: state.notices + raised(step.outcome),
            halted: step.outcome is Halted,
        }
    }
}

/// The state after the instructions, taken in order.
pub open spec fn run_from(state: RunState, instructions: Seq<InstructionView>) -> RunState
    decreases instructions.len(),
{
    if instructions.len() == 0 {
        state
    } else {
        after(run_from(state, instructions.drop_last()), instructions.last())
    }
}

/// A run that has halted stays as it is, whatever instructions follow.
pub proof fn lemma_halted_stays(state: RunState, instructions: Seq<InstructionView>, k: int)
    requires
        0 <= k <= instructions.len(),
        run_from(state, instructions.take(k)).halted,
    ensures
        run_from(state, instructions) == run_from(state, instructions.take(k)),
    decreases instructions.len() - k,
{
    if k == instructions.len() {
        assert(instructions.take(k) =~= instructions);
    } else {
        assert(instructions.take(k + 1).drop_last() =~= instructions.take(k));
        lemma_halted_stays(state, instructions, k + 1);
    }
}

/// What reading the bytes in a format gives.
pub open spec fn reads(format: InputFormat, bytes: Seq<u8>, r: Result<Table, ReadError>) -> bool {
    match format {
        InputFormat::CSV => (crate::adapters::input::csv::Adapter).reads(bytes, r),
    }
}

/// Whether a format can take the options.
pub open spec fn accepts(format: OutputFormat, optionals: Optionals) -> bool {
    match format {
        OutputFormat::CSV => (crate::adapters::output::csv::Adapter).accepts(optionals),
        OutputFormat::SQL => (crate::adapters::output::sql::Adapter).accepts(optionals),
        OutputFormat::JSON => (crate::adapters::output::json::Adapter).accepts(optionals),
    }
}

/// Whether a format can take the table.
pub open spec fn writable(format: OutputFormat, t: TableView) -> bool {
    match format {
        OutputFormat::CSV => (crate::adapters::output::csv::Adapter).writable(t),
        OutputFormat::SQL => (crate::adapters::output::sql::Adapter).writable(t),
        OutputFormat::JSON => (crate::adapters::output::json::Adapter).writable(t),
    }
}

/// What is written for a table in a format.
pub open spec fn renders(
    format: OutputFormat,
    t: TableView,
    optionals: Optionals,
    output: Output,
) -> bool {
    match format {
        OutputFormat::CSV => (crate::adapters::output::csv::Adapter).renders(t, optionals, output),
        OutputFormat::SQL => (crate::adapters::output::sql::Adapter).renders(t, optionals, output),
        OutputFormat::JSON => (crate::adapters::output::json::Adapter).renders(
            t,
            optionals,
            output,
        ),
    }
}

/// One run of a set of instructions over a table.
#[derive(Debug)]
pub struct Process {
    /// The instructions, in the order of their lines.
    pub instructions: Vec<Instruction>,
    /// The table.
    pub table: Table,
    /// The audit log: one entry for each executed instruction, in order.
    pub logs: Vec<String>,
    /// The validation failures that were reported or that halted the run.
    pub notices: Vec<Failure>,
    /// Whether a validation has halted the run.
    pub halted: bool,
    /// The phase that the run is in.
    pub stage: Stage,
}

impl Process {
    /// The state of the run as plain values.
    pub open spec fn state(&self) -> RunState {
        RunState {
            table: self.table@,
            logs: self.logs.deep_view(),
            notices: self.notices.deep_view(),
            halted: self.halted,
        }
    }

    /// A run with nothing loaded.
    pub fn new() -> (r: Process)
        ensures
            r.instructions.len() == 0,
            r.table@.fields.len() == 0,
            r.table@.records.len() == 0,
            r.logs.len() == 0,
            r.notices.len() == 0,
            !r.halted,
            r.stage == Stage::Idle,
            r.table@.wf(),
    {
        Process {
            logs: Vec::new(),
            notices: Vec::new(),
            table: Table::new(),
            instructions: Vec::new(),
            halted: false,
            stage: Stage::Idle,
        }
    }

    /// Loads the instructions of a stream behind those already loaded, and
    /// says how many are loaded then. A stream with a line that cannot be
    /// read loads nothing.
    pub fn read_instructions(&mut self, lines: &Vec<String>) -> (r: Result<usize, RunError>)
        ensures
            match old(self).stage.after(Event::Load) {
                None => r matches Err(RunError::OutOfOrder(stage)) && stage == old(self).stage
                    && *final(self) == *old(self),
                Some(next) => match r {
                    Ok(count) => {
                        &&& parse_lines(lines.deep_view()) matches Ok(read)
                        &&& final(self).instructions.deep_view()
                            == old(self).instructions.deep_view() + read
                        &&& count == final(self).instructions.len()
                        &&& final(self).stage == next
                        &&& final(self).table == old(self).table
                        &&& final(self).logs == old(self).logs
                        &&& final(self).notices == old(self).notices
                        &&& final(self).halted == old(self).halted
                    },
                    Err(RunError::Instructions(e)) => parse_lines(lines.deep_view()) == Err::<
                        Seq<InstructionView>,
                        ParseErrorView,
                    >(e@) && *final(self) == *old(self),
                    Err(_) => false,
                },
            },
    {
        let next = match self.stage.on(Event::Load) {
            None => {
                return Err(RunError::OutOfOrder(self.stage));
            },
            Some(next) => next,
        };
        match InstructionParser::parse(lines) {
            Err(e) => Err(RunError::Instructions(e)),
            Ok(mut read) => {
                let ghost before = self.instructions.deep_view();
                let ghost added = read.deep_view();
                self.instructions.append(&mut read);
                self.stage = next;
                assert(self.instructions.deep_view() =~= before + added);
                Ok(self.instructions.len())
            },
        }
    }

    /// Loads the input in a format as the table of the run, and says how many
    /// records it holds. Input that makes no table loads nothing.
    pub fn read_records(&mut self, bytes: &[u8], format: InputFormat) -> (r: Result<
        usize,
        RunError,
    >)
        ensures
            match old(self).stage.after(Event::Load) {
                None => r matches Err(RunError::OutOfOrder(stage)) && stage == old(self).stage
                    && *final(self) == *old(self),
                Some(next) => match r {
                    Ok(count) => {
                        &&& reads(format, bytes@, Ok(final(self).table))
                        &&& final(self).table@.wf()
                        &&& count == final(self).table.records.len()
                        &&& final(self).stage == next
                        &&& final(self).instructions == old(self).instructions
                        &&& final(self).logs == old(self).logs
                        &&& final(self).notices == old(self).notices
                        &&& final(self).halted == old(self).halted
                    },
                    Err(RunError::Undecodable(e)) => reads(
                        format,
                        bytes@,
                        Err(ReadError::Undecodable(e)),
                    ) && *final(self) == *old(self),
                    Err(RunError::Records(e)) => reads(format, bytes@, Err(ReadError::Table(e)))
                        && *final(self) == *old(self),
                    Err(_) => false,
                },
            },
    {
        let next = match self.stage.on(Event::Load) {
            None => {
                return Err(RunError::OutOfOrder(self.stage));
            },
            Some(next) => next,
        };
        let read = match format {
            InputFormat::CSV => (crate::adapters::input::csv::Adapter).read(bytes),
        };
        match read {
            Err(ReadError::Undecodable(e)) => Err(RunError::Undecodable(e)),
            Err(ReadError::Table(e)) => Err(RunError::Records(e)),
            Ok(table) => {
                self.table = table;
                self.stage = next;
                Ok(self.table.records.len())
            },
        }
    }

    /// Carries out the instructions in order, each on the table that the one
    /// before it left, until all are done or one halts the run. Says how many
    /// entries the audit log holds then. A table that is not well formed is
    /// not worked on.
    pub fn run(&mut self) -> (r: Result<usize, RunError>)
        ensures
            match old(self).stage.after(Event::Run) {
                None => r matches Err(RunError::OutOfOrder(stage)) && stage == old(self).stage
                    && *final(self) == *old(self),
                Some(next) => if old(self).table@.wf() {
                    &&& r matches Ok(count)
                    &&& count == final(self).logs.len()
                    &&& final(self).state() == run_from(
                        old(self).state(),
                        old(self).instructions.deep_view(),
                    )
                    &&& final(self).table@.wf()
                    &&& final(self).instructions == old(self).instructions
                    &&& final(self).stage == next
                } else {
                    r matches Err(RunError::Malformed) && *final(self) == *old(self)
                },
            },
    {
        let next = match self.stage.on(Event::Run) {
            None => {
                return Err(RunError::OutOfOrder(self.stage));
            },
            Some(next) => next,
        };
        if !self.table.is_wf() {
            return Err(RunError::Malformed);
        }
        let ghost start = self.state();
        let ghost program = self.instructions.deep_view();
        let mut i: usize = 0;
        assert(program.take(0) =~= Seq::<InstructionView>::empty());
        while i < self.instructions.len() && !self.halted
            invariant
                i <= self.instructions.len(),
                self.instructions == old(self).instructions,
                self.stage == old(self).stage,
                program == self.instructions.deep_view(),
                start == old(self).state(),
                self.table@.wf(),
                self.state() == run_from(start, program.take(i as int)),
            decreases self.instructions.len() - i,
        {
            let ghost sofar = self.state();
            assert(program.take(i + 1).drop_last() =~= program.take(i as int));
            assert(program.take(i + 1).last() == self.instructions[i as int]@);
            let outcome = self.instructions[i].execute(&mut self.table);
            let entry = entry_for(&self.instructions[i], &outcome);
            self.logs.push(entry);
            assert(self.logs.deep_view() =~= sofar.logs.push(entry@));
            match outcome {
                Outcome::Applied(mut reported) => {
                    let ghost added = reported.deep_view();
                    self.notices.append(&mut reported);
                    assert(self.notices.deep_view() =~= sofar.notices + added);
                },
                Outcome::Misconfigured => {
                    assert(self.notices.deep_view() =~= sofar.notices + Seq::<
                        FailureView,
                    >::empty());
                },
                Outcome::Halted(failure) => {
                    let ghost added = failure@;
                    self.notices.push(failure);
                    self.halted = true;
                    assert(self.notices.deep_view() =~= sofar.notices + seq![added]);
                },
            }
            i += 1;
        }
        proof {
            if self.halted {
                lemma_halted_stays(start, program, i as int);
            } else {
                assert(program.take(i as int) =~= program);
            }
        }
        self.stage = next;
        Ok(self.logs.len())
    }

    /// The lines of the audit log, in order, for the sink that receives them.
    pub fn log(&mut self) -> (r: Result<Vec<String>, RunError>)
        ensures
            match old(self).stage.after(Event::Log) {
                None => r matches Err(RunError::OutOfOrder(stage)) && stage == old(self).stage
                    && *final(self) == *old(self),
                Some(next) => {
                    &&& r matches Ok(lines)
                    &&& lines.deep_view() == old(self).logs.deep_view()
                    &&& final(self).stage == next
                    &&& final(self).instructions == old(self).instructions
                    &&& final(self).table == old(self).table
                    &&& final(self).logs == old(self).logs
                    &&& final(self).notices == old(self).notices
                    &&& final(self).halted == old(self).halted
                },
            },
    {
        match self.stage.on(Event::Log) {
            None => Err(RunError::OutOfOrder(self.stage)),
            Some(next) => {
                self.stage = next;
                Ok(copy_strings(&self.logs))
            },
        }
    }

    /// What the table gives in a format: the records that are not discarded,
    /// in table order. A table that is not well formed fails the output, and
    /// so do options that the format cannot take and a stored value that does
    /// not read as the declared type of its field; the run then stays in its
    /// phase.
    pub fn write_result(&mut self, format: OutputFormat, optionals: &Optionals) -> (r: Result<
        Output,
        RunError,
    >)
        ensures
            final(self).instructions == old(self).instructions,
            final(self).table == old(self).table,
            final(self).logs == old(self).logs,
            final(self).notices == old(self).notices,
            final(self).halted == old(self).halted,
            match old(self).stage.after(Event::Write) {
                None => r matches Err(RunError::OutOfOrder(stage)) && stage == old(self).stage
                    && final(self).stage == old(self).stage,
                Some(next) => if !old(self).table@.wf() {
                    r matches Err(RunError::Malformed) && final(self).stage == old(self).stage
                } else if !accepts(format, *optionals) {
                    r matches Err(RunError::Indent(asked)) && asked == optionals.ispaces
                        && final(self).stage == old(self).stage
                } else if !well_typed(old(self).table@) {
                    r matches Err(RunError::Mistyped(e)) && reports(old(self).table@, e)
                        && final(self).stage == old(self).stage
                } else if !writable(format, old(self).table@) {
                    r matches Err(RunError::Unwritable(_)) && final(self).stage == old(self).stage
                } else {
                    &&& final(self).stage == next
                    &&& r matches Ok(output)
                    &&& renders(format, old(self).table@, *optionals, output)
                },
            },
    {
        let next = match self.stage.on(Event::Write) {
            None => {
                return Err(RunError::OutOfOrder(self.stage));
            },
            Some(next) => next,
        };
        if !self.table.is_wf() {
            return Err(RunError::Malformed);
        }
        let written = match format {
            OutputFormat::CSV => (crate::adapters::output::csv::Adapter).write(
                &self.table,
                optionals,
            ),
            OutputFormat::SQL => (crate::adapters::output::sql::Adapter).write(
                &self.table,
                optionals,
            ),
            OutputFormat::JSON => (crate::adapters::output::json::Adapter).write(
                &self.table,
                optionals,
            ),
        };
        match written {
            Ok(output) => {
                self.stage = next;
                Ok(output)
            },
            Err(WriteError::Mistyped(e)) => {
                proof {
                    lemma_reported_is_mistyped(self.table@, e);
                }
                Err(RunError::Mistyped(e))
            },
            Err(WriteError::Unwritable(e)) => Err(RunError::Unwritable(e)),
            Err(WriteError::Indent(asked)) => Err(RunError::Indent(asked)),
        }
    }

    /// Ends the run.
    pub fn finish(&mut self) -> (r: Result<(), RunError>)
        ensures
            final(self).instructions == old(self).instructions,
            final(self).table == old(self).table,
            final(self).logs == old(self).logs,
            final(self).notices == old(self).notices,
            final(self).halted == old(self).halted,
            match old(self).stage.after(Event::Finish) {
                None => r matches Err(RunError::OutOfOrder(stage)) && stage == old(self).stage
                    && final(self).stage == old(self).stage,
                Some(next) => r is Ok && final(self).stage == next,
            },
    {
        match self.stage.on(Event::Finish) {
            None => Err(RunError::OutOfOrder(self.stage)),
            Some(next) => {
                self.stage = next;
                Ok(())
            },
        }
    }
}

/// Where a value is reported as mistyped, the table is not well typed.
pub proof fn lemma_reported_is_mistyped(t: TableView, e: Mistyped)
    requires
        reports(t, e),
    ensures
        !well_typed(t),
{
    let (r, c) = choose|r: int, c: int|
        first_mistyped(t, r, c) && e.record == t.records[r].id && e.field@ == t.fields[c].name;
    assert(!row_ok(t, r));
}

fn label_for(outcome: &Outcome) -> (r: &'static str)
    ensures
        r@ == outcome_label(outcome@),
{
    match outcome {
        Outcome::Applied(_) => "applied",
        Outcome::Misconfigured => "misconfigured",
        Outcome::Halted(_) => "halted",
    }
}

fn append_note(out: &mut String, failure: &Failure)
    ensures
        final(out)@ == old(out)@ + note(failure@),
{
    let ghost before = out@;
    let number = render_number(failure.record);
    let format = failure.format.to_string();
    out.append("; record ");
    out.append(number.as_str());
    out.append(" fails ");
    out.append(format.as_str());
    assert(out@ =~= before + note(failure@));
}

fn append_notes(out: &mut String, failures: &Vec<Failure>)
    ensures
        final(out)@ == old(out)@ + notes(failures.deep_view()),
{
    let ghost before = out@;
    let mut i: usize = 0;
    assert(failures.deep_view().take(0) =~= Seq::<FailureView>::empty());
    assert(out@ =~= before + notes(failures.deep_view().take(0)));
    while i < failures.len()
        invariant
            i <= failures.len(),
            out@ == before + notes(failures.deep_view().take(i as int)),
        decreases failures.len() - i,
    {
        let ghost upto = failures.deep_view().take(i + 1);
        let ghost sofar = out@;
        assert(upto.drop_last() =~= failures.deep_view().take(i as int));
        assert(upto.last() == failures[i as int]@);
        append_note(out, &failures[i]);
        assert(out@ =~= before + notes(upto));
        i += 1;
    }
    assert(failures.deep_view().take(failures.len() as int) =~= failures.deep_view());
}

fn entry_for(instruction: &Instruction, outcome: &Outcome) -> (r: String)
    ensures
        r@ == log_entry(instruction@, outcome@),
{
    let mut out = String::from_str("Executing: ");
    let line = instruction.to_string();
    out.append(line.as_str());
    out.append(" (");
    out.append(label_for(outcome));
    out.append(")");
    let ghost head = out@;
    match outcome {
        Outcome::Applied(reported) => {
            append_notes(&mut out, reported);
        },
        Outcome::Misconfigured => {
            assert(out@ =~= head + notes(Seq::<FailureView>::empty()));
        },
        Outcome::Halted(failure) => {
            append_note(&mut out, failure);
            let ghost one = seq![failure@];
            assert(one.drop_last() =~= Seq::<FailureView>::empty());
            assert(one.last() == failure@);
            assert(notes(one.drop_last()) =~= Seq::<char>::empty());
            assert(notes(one) =~= note(failure@));
        },
    }
    out
}

} // verus!
