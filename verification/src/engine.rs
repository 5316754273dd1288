//! What each instruction does to a table.
//!
//! An instruction that does not fit the table it meets (it names a field that
//! is not there, or a new name that is taken, or orders values that are no
//! numbers) is misconfigured: it leaves the table as it is. Records that are
//! already discarded are never brought back, and take no part in decisions
//! about others.

use crate::grammar::{Action, Format, Type};
use crate::instructions::{
    Add, AddView, Alias, AliasView, Coerce, CoerceView, Distinct, DistinctView, Filter,
    FilterView, Ignore, IgnoreView, Instruction, InstructionView, Merge, MergeView, Rename,
    RenameView, Validate, ValidateView,
};
use crate::laws::lemma_effect_keeps_wf;
use crate::number::{compare, conforms, holds, reads_as};
use crate::patterns::{check, fits};
use crate::table::{columns, within, Field, FieldView, Record, RecordView, Table, TableView};
use crate::text::str_eq;
use vstd::prelude::*;
use vstd::string::*;

verus! {

/// A value that failed the format its field is validated against.
#[derive(Debug)]
pub struct Failure {
    pub field: String,
    pub record: u64,
    pub format: Format,
}

/// A failure as plain values.
pub struct FailureView {
    pub field: Seq<char>,
    pub record: u64,
    pub format: Format,
}

impl View for Failure {
    type V = FailureView;

    open spec fn view(&self) -> FailureView {
        FailureView { field: self.field@, record: self.record, format: self.format }
    }
}

impl DeepView for Failure {
    type V = FailureView;

    open spec fn deep_view(&self) -> FailureView {
        self@
    }
}

/// How the execution of one instruction ended.
#[derive(Debug)]
pub enum Outcome {
    /// The instruction took effect; with it come the failures it only reports.
    Applied(Vec<Failure>),
    /// The instruction does not fit the table and changed nothing.
    Misconfigured,
    /// A validation failed whose action is to stop the run.
    Halted(Failure),
}

/// An outcome as plain values.
pub enum OutcomeView {
    Applied(Seq<FailureView>),
    Misconfigured,
    Halted(FailureView),
}

impl View for Outcome {
    type V = OutcomeView;

    open spec fn view(&self) -> OutcomeView {
        match self {
            Outcome::Applied(reported) => OutcomeView::Applied(reported.deep_view()),
            Outcome::Misconfigured => OutcomeView::Misconfigured,
            Outcome::Halted(failure) => OutcomeView::Halted(failure@),
        }
    }
}

/// The table an instruction leaves behind, and how it ended.
pub struct Step {
    pub table: TableView,
    pub outcome: OutcomeView,
}

/// The step of an instruction that took effect and reports nothing.
pub open spec fn applied(table: TableView) -> Step {
    Step { table, outcome: OutcomeView::Applied(Seq::<FailureView>::empty()) }
}

/// The step of an instruction that does not fit the table.
pub open spec fn refused(table: TableView) -> Step {
    Step { table, outcome: OutcomeView::Misconfigured }
}

/// The sequence without the elements at the listed positions.
pub open spec fn without<A>(s: Seq<A>, cols: Seq<int>) -> Seq<A>
    decreases s.len(),
{
    if s.len() == 0 {
        s
    } else if cols.contains(s.len() - 1) {
        without(s.drop_last(), cols)
    } else {
        without(s.drop_last(), cols).push(s.last())
    }
}

/// The values at the listed positions, in the order of the list.
pub open spec fn pick(values: Seq<Seq<char>>, cols: Seq<int>) -> Seq<Seq<char>> {
    Seq::new(cols.len(), |k: int| values[cols[k]])
}

/// The values at the listed positions written one after another.
pub open spec fn gather(values: Seq<Seq<char>>, cols: Seq<int>) -> Seq<char>
    decreases cols.len(),
{
    if cols.len() == 0 {
        Seq::<char>::empty()
    } else {
        gather(values, cols.drop_last()) + values[cols.last()]
    }
}

/// The table with every record replaced by what `change` makes of it.
pub open spec fn each_record(t: TableView, change: spec_fn(RecordView) -> RecordView) -> Seq<
    RecordView,
> {
    Seq::new(t.records.len(), |r: int| change(t.records[r]))
}

impl AddView {
    /// The new names differ from each other and from every name in the table.
    pub open spec fn applicable(self, t: TableView) -> bool {
        &&& self.fields.no_duplicates()
        &&& forall|k: int| 0 <= k < self.fields.len() ==> !t.known(#[trigger] self.fields[k])
    }

    /// The fields that are created.
    pub open spec fn created(self) -> Seq<FieldView> {
        Seq::new(
            self.fields.len(),
            |k: int|
                FieldView {
                    name: self.fields[k],
                    typed: self.typed,
                    aliases: Seq::<Seq<char>>::empty(),
                },
        )
    }

    /// The values that every record gains.
    pub open spec fn filling(self) -> Seq<Seq<char>> {
        Seq::new(self.fields.len(), |k: int| self.default)
    }

    /// The table with the new fields behind the old ones, and the default
    /// value in the new columns of every record.
    pub open spec fn apply(self, t: TableView) -> TableView {
        TableView {
            fields: t.fields + self.created(),
            records: each_record(
                t,
                |rec: RecordView| RecordView { values: rec.values + self.filling(), ..rec },
            ),
        }
    }

    /// What the instruction does to a table.
    pub open spec fn effect(self, t: TableView) -> Step {
        if self.applicable(t) {
            applied(self.apply(t))
        } else {
            refused(t)
        }
    }
}

impl AliasView {
    /// The field is there and the additional name is free.
    pub open spec fn applicable(self, t: TableView) -> bool {
        t.known(self.field) && !t.known(self.to)
    }

    /// The table in which the field answers to the additional name as well.
    pub open spec fn apply(self, t: TableView) -> TableView {
        let p = t.position(self.field);
        TableView {
            fields: t.fields.update(
                p,
                FieldView { aliases: t.fields[p].aliases.push(self.to), ..t.fields[p] },
            ),
            records: t.records,
        }
    }

    /// What the instruction does to a table.
    pub open spec fn effect(self, t: TableView) -> Step {
        if self.applicable(t) {
            applied(self.apply(t))
        } else {
            refused(t)
        }
    }
}

impl RenameView {
    /// The field is there and the new name is free.
    pub open spec fn applicable(self, t: TableView) -> bool {
        t.known(self.field) && !t.known(self.to)
    }

    /// The table in which the field bears the new name. Values stay as they are.
    pub open spec fn apply(self, t: TableView) -> TableView {
        let p = t.position(self.field);
        TableView {
            fields: t.fields.update(p, FieldView { name: self.to, ..t.fields[p] }),
            records: t.records,
        }
    }

    /// What the instruction does to a table.
    pub open spec fn effect(self, t: TableView) -> Step {
        if self.applicable(t) {
            applied(self.apply(t))
        } else {
            refused(t)
        }
    }
}

impl IgnoreView {
    /// Every listed field is there.
    pub open spec fn applicable(self, t: TableView) -> bool {
        t.all_known(self.fields)
    }

    /// The table without the listed fields and without their columns.
    pub open spec fn apply(self, t: TableView) -> TableView {
        let cols = t.positions(self.fields);
        TableView {
            fields: without(t.fields, cols),
            records: each_record(
                t,
                |rec: RecordView| RecordView { values: without(rec.values, cols), ..rec },
            ),
        }
    }

    /// What the instruction does to a table.
    pub open spec fn effect(self, t: TableView) -> Step {
        if self.applicable(t) {
            applied(self.apply(t))
        } else {
            refused(t)
        }
    }
}

impl MergeView {
    /// Every listed field is there, and the target name is free once the
    /// listed fields are gone.
    pub open spec fn applicable(self, t: TableView) -> bool {
        &&& t.all_known(self.fields)
        &&& forall|i: int|
            0 <= i < t.fields.len() && (#[trigger] t.fields[i]).answers(self.to)
                ==> t.positions(self.fields).contains(i)
    }

    /// The field that receives the merged values.
    pub open spec fn target(self) -> FieldView {
        FieldView { name: self.to, typed: Type::STRING, aliases: Seq::<Seq<char>>::empty() }
    }

    /// The table without the listed fields and with the target behind the
    /// remaining ones; its value in a record is the concatenation of the
    /// record's values in the listed fields, in the order of the list.
    pub open spec fn apply(self, t: TableView) -> TableView {
        let cols = t.positions(self.fields);
        TableView {
            fields: without(t.fields, cols).push(self.target()),
            records: each_record(
                t,
                |rec: RecordView|
                    RecordView {
                        values: without(rec.values, cols).push(gather(rec.values, cols)),
                        ..rec
                    },
            ),
        }
    }

    /// What the instruction does to a table.
    pub open spec fn effect(self, t: TableView) -> Step {
        if self.applicable(t) {
            applied(self.apply(t))
        } else {
            refused(t)
        }
    }
}

impl DistinctView {
    /// An earlier record that is not discarded holds the same values in the
    /// listed fields as record `j`.
    pub open spec fn repeats(self, t: TableView, j: int) -> bool {
        let cols = t.positions(self.fields);
        exists|i: int|
            0 <= i < j && !(#[trigger] t.records[i]).discarded && pick(t.records[i].values, cols)
                == pick(t.records[j].values, cols)
    }

    /// Every listed field is there.
    pub open spec fn applicable(self, t: TableView) -> bool {
        t.all_known(self.fields)
    }

    /// The table in which every record that repeats an earlier one is
    /// discarded.
    pub open spec fn apply(self, t: TableView) -> TableView {
        TableView {
            fields: t.fields,
            records: Seq::new(
                t.records.len(),
                |j: int|
                    RecordView {
                        discarded: t.records[j].discarded || self.repeats(t, j),
                        ..t.records[j]
                    },
            ),
        }
    }

    /// What the instruction does to a table.
    pub open spec fn effect(self, t: TableView) -> Step {
        if self.applicable(t) {
            applied(self.apply(t))
        } else {
            refused(t)
        }
    }
}

impl FilterView {
    /// The comparison is defined for the record's value in each listed field.
    pub open spec fn defined(self, values: Seq<Seq<char>>, cols: Seq<int>) -> bool {
        forall|k: int|
            0 <= k < cols.len() ==> compare(
                values[#[trigger] cols[k]],
                self.expression,
                self.value,
            ) is Some
    }

    /// The comparison is false for the record's value in some listed field.
    pub open spec fn rejects(self, values: Seq<Seq<char>>, cols: Seq<int>) -> bool {
        exists|k: int|
            0 <= k < cols.len() && compare(values[#[trigger] cols[k]], self.expression, self.value)
                == Some(false)
    }

    /// Every listed field is there, and the comparison is defined for every
    /// record that is not discarded.
    pub open spec fn applicable(self, t: TableView) -> bool {
        &&& t.all_known(self.fields)
        &&& forall|r: int|
            0 <= r < t.records.len() && !(#[trigger] t.records[r]).discarded ==> self.defined(
                t.records[r].values,
                t.positions(self.fields),
            )
    }

    /// The table in which every record that the comparison rejects is
    /// discarded.
    pub open spec fn apply(self, t: TableView) -> TableView {
        let cols = t.positions(self.fields);
        TableView {
            fields: t.fields,
            records: each_record(
                t,
                |rec: RecordView|
                    RecordView {
                        discarded: rec.discarded || self.rejects(rec.values, cols),
                        ..rec
                    },
            ),
        }
    }

    /// What the instruction does to a table.
    pub open spec fn effect(self, t: TableView) -> Step {
        if self.applicable(t) {
            applied(self.apply(t))
        } else {
            refused(t)
        }
    }
}

impl CoerceView {
    /// Every listed field is there.
    pub open spec fn applicable(self, t: TableView) -> bool {
        t.all_known(self.fields)
    }

    /// The values of a record after coercion: in the listed fields a value
    /// that does not read as the type gives way to the rescue value.
    pub open spec fn coerced(self, values: Seq<Seq<char>>, cols: Seq<int>) -> Seq<Seq<char>> {
        Seq::new(
            values.len(),
            |c: int|
                if cols.contains(c) && !conforms(values[c], self.typed) {
                    self.rescue
                } else {
                    values[c]
                },
        )
    }

    /// The schema after coercion: the listed fields are of the type.
    pub open spec fn retyped(self, fields: Seq<FieldView>, cols: Seq<int>) -> Seq<FieldView> {
        Seq::new(
            fields.len(),
            |c: int|
                if cols.contains(c) {
                    FieldView { typed: self.typed, ..fields[c] }
                } else {
                    fields[c]
                },
        )
    }

    /// The table after coercion.
    pub open spec fn apply(self, t: TableView) -> TableView {
        let cols = t.positions(self.fields);
        TableView {
            fields: self.retyped(t.fields, cols),
            records: each_record(
                t,
                |rec: RecordView| RecordView { values: self.coerced(rec.values, cols), ..rec },
            ),
        }
    }

    /// What the instruction does to a table.
    pub open spec fn effect(self, t: TableView) -> Step {
        if self.applicable(t) {
            applied(self.apply(t))
        } else {
            refused(t)
        }
    }
}

impl ValidateView {
    /// The record is not discarded and its value at position `p` fails the format.
    pub open spec fn fails(self, rec: RecordView, p: int) -> bool {
        !rec.discarded && !fits(self.format, rec.values[p])
    }

    /// The failure of a record.
    pub open spec fn failure(self, rec: RecordView) -> FailureView {
        FailureView { field: self.field, record: rec.id, format: self.format }
    }

    /// The failures among the records, in table order.
    pub open spec fn reported(self, records: Seq<RecordView>, p: int) -> Seq<FailureView>
        decreases records.len(),
    {
        if records.len() == 0 {
            Seq::<FailureView>::empty()
        } else if self.fails(records.last(), p) {
            self.reported(records.drop_last(), p).push(self.failure(records.last()))
        } else {
            self.reported(records.drop_last(), p)
        }
    }

    /// Record `r` is the first that fails.
    pub open spec fn first_failing(self, records: Seq<RecordView>, p: int, r: int) -> bool {
        &&& 0 <= r < records.len()
        &&& self.fails(records[r], p)
        &&& forall|i: int| 0 <= i < r ==> !self.fails(#[trigger] records[i], p)
    }

    /// The position of the first record that fails.
    pub open spec fn halting(self, records: Seq<RecordView>, p: int) -> int {
        choose|r: int| self.first_failing(records, p, r)
    }

    /// Some record fails.
    pub open spec fn any_failing(self, records: Seq<RecordView>, p: int) -> bool {
        exists|r: int| 0 <= r < records.len() && self.fails(#[trigger] records[r], p)
    }

    /// The table in which every failing record is discarded.
    pub open spec fn discarding(self, t: TableView) -> TableView {
        let p = t.position(self.field);
        TableView {
            fields: t.fields,
            records: each_record(
                t,
                |rec: RecordView|
                    RecordView { discarded: rec.discarded || self.fails(rec, p), ..rec },
            ),
        }
    }

    /// What the instruction does to a table. The field must be there. A
    /// failure is handled as the action says: the record is discarded; or it
    /// is reported and kept; or the first failure stops the run, the table
    /// staying as it is.
    pub open spec fn effect(self, t: TableView) -> Step {
        let p = t.position(self.field);
        if !t.known(self.field) {
            refused(t)
        } else {
            match self.action {
                Action::DISCARD => applied(self.discarding(t)),
                Action::NOTIFY => Step {
                    table: t,
                    outcome: OutcomeView::Applied(self.reported(t.records, p)),
                },
                Action::HALT => if self.any_failing(t.records, p) {
                    Step {
                        table: t,
                        outcome: OutcomeView::Halted(
                            self.failure(t.records[self.halting(t.records, p)]),
                        ),
                    }
                } else {
                    applied(t)
                },
            }
        }
    }
}

impl InstructionView {
    /// What the instruction does to a table.
    pub open spec fn effect(self, t: TableView) -> Step {
        match self {
            InstructionView::ADD(inner) => inner.effect(t),
            InstructionView::ALIAS(inner) => inner.effect(t),
            InstructionView::MERGE(inner) => inner.effect(t),
            InstructionView::IGNORE(inner) => inner.effect(t),
            InstructionView::COERCE(inner) => inner.effect(t),
            InstructionView::RENAME(inner) => inner.effect(t),
            InstructionView::FILTER(inner) => inner.effect(t),
            InstructionView::DISTINCT(inner) => inner.effect(t),
            InstructionView::VALIDATE(inner) => inner.effect(t),
        }
    }
}

/// Something that can be carried out on a table.
pub trait Executable {
    /// What carrying it out makes of a table.
    spec fn effect(&self, t: TableView) -> Step;

    /// Carries it out.
    fn execute(&self, table: &mut Table) -> (outcome: Outcome)
        requires
            old(table)@.wf(),
        ensures
            final(table)@ == self.effect(old(table)@).table,
            outcome@ == self.effect(old(table)@).outcome,
            final(table)@.wf(),
    ;
}

fn no_failures() -> (r: Vec<Failure>)
    ensures
        r.deep_view() == Seq::<FailureView>::empty(),
{
    let r: Vec<Failure> = Vec::new();
    assert(r.deep_view() =~= Seq::<FailureView>::empty());
    r
}

/// Whether the names differ from each other.
fn all_differ(names: &Vec<String>) -> (r: bool)
    ensures
        r == names.deep_view().no_duplicates(),
{
    let mut j: usize = 0;
    while j < names.len()
        invariant
            j <= names.len(),
            forall|a: int, b: int|
                0 <= a < b < j ==> names.deep_view()[a] != names.deep_view()[b],
        decreases names.len() - j,
    {
        let mut i: usize = 0;
        while i < j
            invariant
                i <= j < names.len(),
                forall|a: int| 0 <= a < i ==> names.deep_view()[a] != names.deep_view()[j as int],
            decreases j - i,
        {
            if str_eq(names[i].as_str(), names[j].as_str()) {
                assert(names.deep_view()[i as int] == names.deep_view()[j as int]);
                return false;
            }
            i += 1;
        }
        j += 1;
    }
    true
}

/// Whether none of the names is known to the table.
fn none_known(table: &Table, names: &Vec<String>) -> (r: bool)
    ensures
        r == forall|k: int|
            0 <= k < names.deep_view().len() ==> !table@.known(#[trigger] names.deep_view()[k]),
{
    let mut k: usize = 0;
    while k < names.len()
        invariant
            k <= names.len(),
            forall|j: int| 0 <= j < k ==> !table@.known(#[trigger] names.deep_view()[j]),
        decreases names.len() - k,
    {
        assert(names.deep_view()[k as int] == names[k as int]@);
        if table.find(names[k].as_str()).is_some() {
            return false;
        }
        k += 1;
    }
    true
}

impl Executable for Add {
    open spec fn effect(&self, t: TableView) -> Step {
        self@.effect(t)
    }

    fn execute(&self, table: &mut Table) -> (outcome: Outcome) {
        if !all_differ(&self.fields) || !none_known(table, &self.fields) {
            return Outcome::Misconfigured;
        }
        let ghost before = table@;
        let count: usize = self.fields.len();
        let mut k: usize = 0;
        while k < count
            invariant
                k <= count == self.fields.len(),
                table.records == old(table).records,
                table.fields.deep_view() == before.fields + self@.created().take(k as int),
            decreases count - k,
        {
            let ghost sofar = table.fields.deep_view();
            let aliases: Vec<String> = Vec::new();
            assert(aliases.deep_view() =~= Seq::<Seq<char>>::empty());
            table.fields.push(Field { name: self.fields[k].clone(), typed: self.typed, aliases });
            assert(table.fields.deep_view() =~= sofar.push(self@.created()[k as int]));
            assert(self@.created().take(k + 1) =~= self@.created().take(k as int).push(
                self@.created()[k as int],
            ));
            k += 1;
        }
        assert(self@.created().take(count as int) =~= self@.created());
        let mut r: usize = 0;
        while r < table.records.len()
            invariant
                r <= table.records.len(),
                count == self.fields.len(),
                before == old(table)@,
                before.wf(),
                table.records.len() == before.records.len(),
                table.fields.deep_view() == before.fields + self@.created(),
                forall|i: int|
                    0 <= i < r ==> (#[trigger] table.records[i])@ == self@.apply(before).records[i],
                forall|i: int|
                    r <= i < table.records.len() ==> (#[trigger] table.records[i])@
                        == before.records[i],
            decreases table.records.len() - r,
        {
            let mut j: usize = 0;
            while j < count
                invariant
                    j <= count == self.fields.len(),
                    r < table.records.len() == before.records.len(),
                    table.fields.deep_view() == before.fields + self@.created(),
                    table.records[r as int].id == before.records[r as int].id,
                    table.records[r as int].discarded == before.records[r as int].discarded,
                    table.records[r as int].values.deep_view() == before.records[r as int].values
                        + self@.filling().take(j as int),
                    forall|i: int|
                        0 <= i < r ==> (#[trigger] table.records[i])@ == self@.apply(
                            before,
                        ).records[i],
                    forall|i: int|
                        r < i < table.records.len() ==> (#[trigger] table.records[i])@
                            == before.records[i],
                decreases count - j,
            {
                let ghost sofar = table.records[r as int].values.deep_view();
                table.records[r].values.push(self.default.clone());
                assert(table.records[r as int].values.deep_view() =~= sofar.push(self.default@));
                assert(self@.filling().take(j + 1) =~= self@.filling().take(j as int).push(
                    self.default@,
                ));
                j += 1;
            }
            assert(self@.filling().take(count as int) =~= self@.filling());
            r += 1;
        }
        assert(table@.records =~= self@.apply(before).records);
        proof {
            lemma_effect_keeps_wf(InstructionView::ADD(self@), before);
        }
        Outcome::Applied(no_failures())
    }
}

/// Sequences of one length keep one length when the same positions are dropped.
pub proof fn lemma_without_len<A, B>(a: Seq<A>, b: Seq<B>, cols: Seq<int>)
    requires
        a.len() == b.len(),
    ensures
        without(a, cols).len() == without(b, cols).len(),
    decreases a.len(),
{
    if a.len() > 0 {
        lemma_without_len(a.drop_last(), b.drop_last(), cols);
    }
}

/// Whether position `c` is among the listed ones.
fn listed(cols: &Vec<usize>, c: usize) -> (r: bool)
    ensures
        r == columns(cols@).contains(c as int),
{
    let mut k: usize = 0;
    while k < cols.len()
        invariant
            k <= cols.len(),
            forall|j: int| 0 <= j < k ==> columns(cols@)[j] != c,
        decreases cols.len() - k,
    {
        if cols[k] == c {
            assert(columns(cols@)[k as int] == c);
            return true;
        }
        k += 1;
    }
    false
}

/// The values without those at the listed positions.
fn values_without(values: &Vec<String>, cols: &Vec<usize>) -> (r: Vec<String>)
    ensures
        r.deep_view() == without(values.deep_view(), columns(cols@)),
{
    let mut out: Vec<String> = Vec::new();
    let mut c: usize = 0;
    assert(out.deep_view() =~= without(values.deep_view().take(0), columns(cols@)));
    while c < values.len()
        invariant
            c <= values.len(),
            out.deep_view() == without(values.deep_view().take(c as int), columns(cols@)),
        decreases values.len() - c,
    {
        let ghost upto = values.deep_view().take(c + 1);
        let ghost sofar = out.deep_view();
        assert(upto.drop_last() =~= values.deep_view().take(c as int));
        assert(upto.last() == values[c as int]@);
        if !listed(cols, c) {
            out.push(values[c].clone());
            assert(out.deep_view() =~= sofar.push(values[c as int]@));
        }
        c += 1;
    }
    assert(values.deep_view().take(values.len() as int) =~= values.deep_view());
    out
}

/// The fields without those at the listed positions.
fn fields_without(fields: &Vec<Field>, cols: &Vec<usize>) -> (r: Vec<Field>)
    ensures
        r.deep_view() == without(fields.deep_view(), columns(cols@)),
{
    let mut out: Vec<Field> = Vec::new();
    let mut c: usize = 0;
    assert(out.deep_view() =~= without(fields.deep_view().take(0), columns(cols@)));
    while c < fields.len()
        invariant
            c <= fields.len(),
            out.deep_view() == without(fields.deep_view().take(c as int), columns(cols@)),
        decreases fields.len() - c,
    {
        let ghost upto = fields.deep_view().take(c + 1);
        let ghost sofar = out.deep_view();
        assert(upto.drop_last() =~= fields.deep_view().take(c as int));
        assert(upto.last() == fields[c as int]@);
        if !listed(cols, c) {
            out.push(fields[c].duplicate());
            assert(out.deep_view() =~= sofar.push(fields[c as int]@));
        }
        c += 1;
    }
    assert(fields.deep_view().take(fields.len() as int) =~= fields.deep_view());
    out
}

/// The values at the listed positions written one after another.
fn glued(values: &Vec<String>, cols: &Vec<usize>) -> (r: String)
    requires
        within(cols@, values.len() as int),
    ensures
        r@ == gather(values.deep_view(), columns(cols@)),
{
    let mut out = String::new();
    let mut k: usize = 0;
    assert(columns(cols@).take(0) =~= Seq::<int>::empty());
    while k < cols.len()
        invariant
            k <= cols.len(),
            within(cols@, values.len() as int),
            out@ == gather(values.deep_view(), columns(cols@).take(k as int)),
        decreases cols.len() - k,
    {
        let ghost upto = columns(cols@).take(k + 1);
        assert(upto.drop_last() =~= columns(cols@).take(k as int));
        assert(upto.last() == cols@[k as int]);
        assert(cols@[k as int] < values.len());
        out.append(values[cols[k]].as_str());
        k += 1;
    }
    assert(columns(cols@).take(cols.len() as int) =~= columns(cols@));
    out
}

/// Whether every field that answers to `name` is among the listed ones.
fn free_after(table: &Table, name: &str, cols: &Vec<usize>) -> (r: bool)
    ensures
        r == forall|i: int|
            0 <= i < table@.fields.len() && (#[trigger] table@.fields[i]).answers(name@)
                ==> columns(cols@).contains(i),
{
    let mut i: usize = 0;
    while i < table.fields.len()
        invariant
            i <= table.fields.len(),
            forall|j: int|
                0 <= j < i && (#[trigger] table@.fields[j]).answers(name@) ==> columns(
                    cols@,
                ).contains(j),
        decreases table.fields.len() - i,
    {
        assert(table@.fields[i as int] == table.fields[i as int]@);
        if table.fields[i].answers_to(name) && !listed(cols, i) {
            return false;
        }
        i += 1;
    }
    true
}

impl Executable for Alias {
    open spec fn effect(&self, t: TableView) -> Step {
        self@.effect(t)
    }

    fn execute(&self, table: &mut Table) -> (outcome: Outcome) {
        let p: usize = match table.find(self.field.as_str()) {
            None => {
                return Outcome::Misconfigured;
            },
            Some(p) => p,
        };
        if table.find(self.to.as_str()).is_some() {
            return Outcome::Misconfigured;
        }
        let ghost before = table@;
        let ghost names = table.fields[p as int].aliases.deep_view();
        table.fields[p].aliases.push(self.to.clone());
        assert(table.fields[p as int].aliases.deep_view() =~= names.push(self.to@));
        assert(table@.fields =~= self@.apply(before).fields);
        proof {
            lemma_effect_keeps_wf(InstructionView::ALIAS(self@), before);
        }
        Outcome::Applied(no_failures())
    }
}

impl Executable for Rename {
    open spec fn effect(&self, t: TableView) -> Step {
        self@.effect(t)
    }

    fn execute(&self, table: &mut Table) -> (outcome: Outcome) {
        let p: usize = match table.find(self.field.as_str()) {
            None => {
                return Outcome::Misconfigured;
            },
            Some(p) => p,
        };
        if table.find(self.to.as_str()).is_some() {
            return Outcome::Misconfigured;
        }
        let ghost before = table@;
        table.fields[p].name = self.to.clone();
        assert(table@.fields =~= self@.apply(before).fields);
        proof {
            lemma_effect_keeps_wf(InstructionView::RENAME(self@), before);
        }
        Outcome::Applied(no_failures())
    }
}

impl Executable for Ignore {
    open spec fn effect(&self, t: TableView) -> Step {
        self@.effect(t)
    }

    fn execute(&self, table: &mut Table) -> (outcome: Outcome) {
        let cols = match table.resolve(&self.fields) {
            None => {
                return Outcome::Misconfigured;
            },
            Some(cols) => cols,
        };
        let ghost before = table@;
        table.fields = fields_without(&table.fields, &cols);
        let mut r: usize = 0;
        while r < table.records.len()
            invariant
                r <= table.records.len(),
                before == old(table)@,
                before.wf(),
                columns(cols@) == before.positions(self@.fields),
                table.records.len() == before.records.len(),
                table.fields.deep_view() == without(before.fields, columns(cols@)),
                forall|i: int|
                    0 <= i < r ==> (#[trigger] table.records[i])@ == self@.apply(before).records[i],
                forall|i: int|
                    r <= i < table.records.len() ==> (#[trigger] table.records[i])@
                        == before.records[i],
            decreases table.records.len() - r,
        {
            let kept = values_without(&table.records[r].values, &cols);
            table.records[r].values = kept;
            r += 1;
        }
        assert(table@.records =~= self@.apply(before).records);
        proof {
            lemma_effect_keeps_wf(InstructionView::IGNORE(self@), before);
        }
        Outcome::Applied(no_failures())
    }
}

impl Executable for Merge {
    open spec fn effect(&self, t: TableView) -> Step {
        self@.effect(t)
    }

    fn execute(&self, table: &mut Table) -> (outcome: Outcome) {
        let cols = match table.resolve(&self.fields) {
            None => {
                return Outcome::Misconfigured;
            },
            Some(cols) => cols,
        };
        if !free_after(table, self.to.as_str(), &cols) {
            return Outcome::Misconfigured;
        }
        let ghost before = table@;
        let mut kept = fields_without(&table.fields, &cols);
        let ghost remaining = kept.deep_view();
        kept.push(Field::new(self.to.as_str()));
        assert(kept.deep_view() =~= remaining.push(self@.target()));
        let width: usize = table.fields.len();
        table.fields = kept;
        let mut r: usize = 0;
        while r < table.records.len()
            invariant
                r <= table.records.len(),
                before == old(table)@,
                before.wf(),
                width == before.fields.len(),
                within(cols@, width as int),
                columns(cols@) == before.positions(self@.fields),
                table.records.len() == before.records.len(),
                table.fields.deep_view() == without(before.fields, columns(cols@)).push(
                    self@.target(),
                ),
                forall|i: int|
                    0 <= i < r ==> (#[trigger] table.records[i])@ == self@.apply(before).records[i],
                forall|i: int|
                    r <= i < table.records.len() ==> (#[trigger] table.records[i])@
                        == before.records[i],
            decreases table.records.len() - r,
        {
            assert(table.records[r as int]@ == before.records[r as int]);
            assert(table.records[r as int].values.len() == width);
            let merged = glued(&table.records[r].values, &cols);
            let mut values = values_without(&table.records[r].values, &cols);
            let ghost rest = values.deep_view();
            values.push(merged);
            assert(values.deep_view() =~= rest.push(merged@));
            table.records[r].values = values;
            r += 1;
        }
        assert(table@.records =~= self@.apply(before).records);
        proof {
            lemma_effect_keeps_wf(InstructionView::MERGE(self@), before);
        }
        Outcome::Applied(no_failures())
    }
}

/// Whether two records hold the same values at the listed positions.
fn same_key(a: &Vec<String>, b: &Vec<String>, cols: &Vec<usize>) -> (r: bool)
    requires
        within(cols@, a.len() as int),
        within(cols@, b.len() as int),
    ensures
        r == (pick(a.deep_view(), columns(cols@)) == pick(b.deep_view(), columns(cols@))),
{
    let ghost left = pick(a.deep_view(), columns(cols@));
    let ghost right = pick(b.deep_view(), columns(cols@));
    let mut k: usize = 0;
    while k < cols.len()
        invariant
            k <= cols.len(),
            within(cols@, a.len() as int),
            within(cols@, b.len() as int),
            left == pick(a.deep_view(), columns(cols@)),
            right == pick(b.deep_view(), columns(cols@)),
            forall|j: int| 0 <= j < k ==> left[j] == right[j],
        decreases cols.len() - k,
    {
        assert(cols@[k as int] < a.len() && cols@[k as int] < b.len());
        if !str_eq(a[cols[k]].as_str(), b[cols[k]].as_str()) {
            assert(left[k as int] != right[k as int]);
            return false;
        }
        k += 1;
    }
    assert(left =~= right);
    true
}

impl Executable for Distinct {
    open spec fn effect(&self, t: TableView) -> Step {
        self@.effect(t)
    }

    fn execute(&self, table: &mut Table) -> (outcome: Outcome) {
        let cols = match table.resolve(&self.fields) {
            None => {
                return Outcome::Misconfigured;
            },
            Some(cols) => cols,
        };
        let ghost before = table@;
        let mut live: Vec<bool> = Vec::new();
        let mut r: usize = 0;
        while r < table.records.len()
            invariant
                r <= table.records.len(),
                live.len() == r,
                table == old(table),
                forall|i: int| 0 <= i < r ==> live@[i] == !(#[trigger] table@.records[i]).discarded,
            decreases table.records.len() - r,
        {
            live.push(!table.records[r].discarded);
            r += 1;
        }
        let mut j: usize = 0;
        while j < table.records.len()
            invariant
                j <= table.records.len(),
                before == old(table)@,
                before.wf(),
                within(cols@, before.fields.len() as int),
                columns(cols@) == before.positions(self@.fields),
                live.len() == before.records.len(),
                forall|i: int|
                    0 <= i < live.len() ==> live@[i] == !(#[trigger] before.records[i]).discarded,
                table.fields == old(table).fields,
                table.records.len() == before.records.len(),
                forall|i: int|
                    0 <= i < table.records.len() ==> (#[trigger] table.records[i]).values
                        == old(table).records[i].values && table.records[i].id
                        == before.records[i].id,
                forall|i: int|
                    0 <= i < j ==> (#[trigger] table.records[i])@ == self@.apply(before).records[i],
                forall|i: int|
                    j <= i < table.records.len() ==> (#[trigger] table.records[i])@
                        == before.records[i],
            decreases table.records.len() - j,
        {
            assert(table.records[j as int]@ == before.records[j as int]);
            assert(before.records[j as int].values.len() == before.fields.len());
            let mut found = false;
            let mut i: usize = 0;
            while i < j && !found
                invariant
                    i <= j < table.records.len(),
                    before == old(table)@,
                    before.wf(),
                    within(cols@, before.fields.len() as int),
                    columns(cols@) == before.positions(self@.fields),
                    live.len() == before.records.len(),
                    forall|a: int|
                        0 <= a < live.len() ==> live@[a] == !(
                        #[trigger] before.records[a]).discarded,
                    table.records.len() == before.records.len(),
                    forall|a: int|
                        0 <= a < table.records.len() ==> (#[trigger] table.records[a]).values
                            == old(table).records[a].values,
                    found ==> self@.repeats(before, j as int),
                    !found ==> forall|a: int|
                        0 <= a < i ==> !(!(#[trigger] before.records[a]).discarded && pick(
                            before.records[a].values,
                            columns(cols@),
                        ) == pick(before.records[j as int].values, columns(cols@))),
                decreases j - i + if found { 0int } else { 1int },
            {
                assert(before.records[i as int].values.len() == before.fields.len());
                assert(table.records[i as int].values.deep_view()
                    == before.records[i as int].values);
                assert(table.records[j as int].values.deep_view()
                    == before.records[j as int].values);
                if live[i] && same_key(&table.records[i].values, &table.records[j].values, &cols) {
                    found = true;
                    assert(!before.records[i as int].discarded);
                } else {
                    i += 1;
                }
            }
            if found {
                table.records[j].discarded = true;
            }
            j += 1;
        }
        assert(table@.records =~= self@.apply(before).records);
        Outcome::Applied(no_failures())
    }
}

/// What the comparison says of one record: nothing where it is not defined
/// for some listed field, else whether it rejects the record.
fn verdict(filter: &Filter, values: &Vec<String>, cols: &Vec<usize>) -> (r: Option<bool>)
    requires
        within(cols@, values.len() as int),
    ensures
        r is Some == filter@.defined(values.deep_view(), columns(cols@)),
        r matches Some(rejected) ==> rejected == filter@.rejects(
            values.deep_view(),
            columns(cols@),
        ),
{
    let ghost vals = values.deep_view();
    let ghost at = columns(cols@);
    let mut rejected = false;
    let mut k: usize = 0;
    while k < cols.len()
        invariant
            k <= cols.len(),
            within(cols@, values.len() as int),
            vals == values.deep_view(),
            at == columns(cols@),
            forall|j: int|
                0 <= j < k ==> compare(vals[#[trigger] at[j]], filter@.expression, filter@.value)
                    is Some,
            rejected == exists|j: int|
                0 <= j < k && compare(vals[#[trigger] at[j]], filter@.expression, filter@.value)
                    == Some(false),
        decreases cols.len() - k,
    {
        assert(cols@[k as int] < values.len());
        assert(at[k as int] == cols@[k as int]);
        match holds(values[cols[k]].as_str(), filter.expression, filter.value.as_str()) {
            None => {
                assert(compare(vals[at[k as int]], filter@.expression, filter@.value) is None);
                return None;
            },
            Some(kept) => {
                if !kept {
                    rejected = true;
                }
            },
        }
        k += 1;
    }
    Some(rejected)
}

impl Executable for Filter {
    open spec fn effect(&self, t: TableView) -> Step {
        self@.effect(t)
    }

    fn execute(&self, table: &mut Table) -> (outcome: Outcome) {
        let cols = match table.resolve(&self.fields) {
            None => {
                return Outcome::Misconfigured;
            },
            Some(cols) => cols,
        };
        let ghost before = table@;
        let mut verdicts: Vec<bool> = Vec::new();
        let mut r: usize = 0;
        while r < table.records.len()
            invariant
                r <= table.records.len(),
                verdicts.len() == r,
                table == old(table),
                before == old(table)@,
                before.wf(),
                within(cols@, before.fields.len() as int),
                columns(cols@) == before.positions(self@.fields),
                forall|i: int|
                    0 <= i < r && !(#[trigger] before.records[i]).discarded ==> self@.defined(
                        before.records[i].values,
                        columns(cols@),
                    ) && verdicts@[i] == self@.rejects(before.records[i].values, columns(cols@)),
            decreases table.records.len() - r,
        {
            assert(table.records[r as int]@ == before.records[r as int]);
            assert(before.records[r as int].values.len() == before.fields.len());
            if table.records[r].discarded {
                verdicts.push(false);
            } else {
                match verdict(self, &table.records[r].values, &cols) {
                    None => {
                        return Outcome::Misconfigured;
                    },
                    Some(rejected) => {
                        verdicts.push(rejected);
                    },
                }
            }
            r += 1;
        }
        let mut j: usize = 0;
        while j < table.records.len()
            invariant
                j <= table.records.len(),
                before == old(table)@,
                before.wf(),
                columns(cols@) == before.positions(self@.fields),
                verdicts.len() == before.records.len(),
                forall|i: int|
                    0 <= i < verdicts.len() && !(#[trigger] before.records[i]).discarded
                        ==> verdicts@[i] == self@.rejects(
                        before.records[i].values,
                        columns(cols@),
                    ),
                table.fields == old(table).fields,
                table.records.len() == before.records.len(),
                forall|i: int|
                    0 <= i < j ==> (#[trigger] table.records[i])@ == self@.apply(before).records[i],
                forall|i: int|
                    j <= i < table.records.len() ==> (#[trigger] table.records[i])@
                        == before.records[i],
            decreases table.records.len() - j,
        {
            assert(table.records[j as int]@ == before.records[j as int]);
            if verdicts[j] {
                table.records[j].discarded = true;
            }
            j += 1;
        }
        assert(table@.records =~= self@.apply(before).records);
        Outcome::Applied(no_failures())
    }
}

impl Coerce {
    /// The values of a record after coercion.
    fn coerce_values(&self, values: &Vec<String>, cols: &Vec<usize>) -> (r: Vec<String>)
        ensures
            r.deep_view() == self@.coerced(values.deep_view(), columns(cols@)),
    {
        let mut out: Vec<String> = Vec::new();
        let mut c: usize = 0;
        while c < values.len()
            invariant
                c <= values.len(),
                out.len() == c,
                forall|i: int|
                    0 <= i < c ==> (#[trigger] out[i])@ == self@.coerced(
                        values.deep_view(),
                        columns(cols@),
                    )[i],
            decreases values.len() - c,
        {
            assert(values.deep_view()[c as int] == values[c as int]@);
            if listed(cols, c) && !reads_as(values[c].as_str(), self.typed) {
                out.push(self.rescue.clone());
            } else {
                out.push(values[c].clone());
            }
            c += 1;
        }
        assert(out.deep_view() =~= self@.coerced(values.deep_view(), columns(cols@)));
        out
    }
}

impl Executable for Coerce {
    open spec fn effect(&self, t: TableView) -> Step {
        self@.effect(t)
    }

    fn execute(&self, table: &mut Table) -> (outcome: Outcome) {
        let cols = match table.resolve(&self.fields) {
            None => {
                return Outcome::Misconfigured;
            },
            Some(cols) => cols,
        };
        let ghost before = table@;
        let ghost at = columns(cols@);
        let width: usize = table.fields.len();
        let mut c: usize = 0;
        while c < width
            invariant
                c <= width == table.fields.len(),
                before == old(table)@,
                at == columns(cols@),
                table.records == old(table).records,
                table.fields.len() == before.fields.len(),
                forall|i: int|
                    0 <= i < c ==> (#[trigger] table.fields[i])@ == self@.retyped(
                        before.fields,
                        at,
                    )[i],
                forall|i: int| c <= i < width ==> (#[trigger] table.fields[i])@ == before.fields[i],
            decreases width - c,
        {
            if listed(&cols, c) {
                table.fields[c].typed = self.typed;
            }
            c += 1;
        }
        assert(table@.fields =~= self@.retyped(before.fields, at));
        let mut r: usize = 0;
        while r < table.records.len()
            invariant
                r <= table.records.len(),
                before == old(table)@,
                before.wf(),
                at == columns(cols@),
                at == before.positions(self@.fields),
                width == before.fields.len(),
                table.records.len() == before.records.len(),
                table@.fields == self@.retyped(before.fields, at),
                forall|i: int|
                    0 <= i < r ==> (#[trigger] table.records[i])@ == self@.apply(before).records[i],
                forall|i: int|
                    r <= i < table.records.len() ==> (#[trigger] table.records[i])@
                        == before.records[i],
            decreases table.records.len() - r,
        {
            assert(table.records[r as int]@ == before.records[r as int]);
            assert(before.records[r as int].values.len() == width);
            let changed = self.coerce_values(&table.records[r].values, &cols);
            table.records[r].values = changed;
            r += 1;
        }
        assert(table@.records =~= self@.apply(before).records);
        proof {
            lemma_effect_keeps_wf(InstructionView::COERCE(self@), before);
        }
        Outcome::Applied(no_failures())
    }
}

impl Validate {
    /// The failure of the record with the given id.
    fn failure_of(&self, id: u64) -> (r: Failure)
        ensures
            r@ == (FailureView { field: self.field@, record: id, format: self.format }),
    {
        Failure { field: self.field.clone(), record: id, format: self.format }
    }
}

impl Executable for Validate {
    open spec fn effect(&self, t: TableView) -> Step {
        self@.effect(t)
    }

    fn execute(&self, table: &mut Table) -> (outcome: Outcome) {
        let p: usize = match table.find(self.field.as_str()) {
            None => {
                return Outcome::Misconfigured;
            },
            Some(p) => p,
        };
        let ghost before = table@;
        let mut reported: Vec<Failure> = Vec::new();
        assert(reported.deep_view() =~= self@.reported(before.records.take(0), p as int));
        let mut r: usize = 0;
        while r < table.records.len()
            invariant
                r <= table.records.len(),
                before == old(table)@,
                before.wf(),
                before.known(self@.field),
                p == before.position(self@.field),
                p < before.fields.len(),
                table.fields == old(table).fields,
                table.records.len() == before.records.len(),
                reported.deep_view() == self@.reported(before.records.take(r as int), p as int),
                forall|i: int| 0 <= i < r ==> !self@.fails(#[trigger] before.records[i], p as int)
                    || self.action != Action::HALT,
                self.action != Action::DISCARD ==> table == old(table),
                self.action == Action::DISCARD ==> forall|i: int|
                    0 <= i < r ==> (#[trigger] table.records[i])@ == self@.discarding(
                        before,
                    ).records[i],
                forall|i: int|
                    r <= i < table.records.len() ==> (#[trigger] table.records[i])@
                        == before.records[i],
            decreases table.records.len() - r,
        {
            let ghost upto = before.records.take(r + 1);
            let ghost sofar = reported.deep_view();
            assert(upto.drop_last() =~= before.records.take(r as int));
            assert(upto.last() == before.records[r as int]);
            assert(table.records[r as int]@ == before.records[r as int]);
            assert(before.records[r as int].values.len() == before.fields.len());
            assert(table.records[r as int].values.deep_view()[p as int]
                == table.records[r as int].values[p as int]@);
            let failing = !table.records[r].discarded && !check(
                self.format,
                table.records[r].values[p].as_str(),
            );
            assert(failing == self@.fails(before.records[r as int], p as int));
            if failing {
                let failure = self.failure_of(table.records[r].id);
                assert(failure@ == self@.failure(before.records[r as int]));
                reported.push(failure);
                assert(reported.deep_view() =~= sofar.push(
                    self@.failure(before.records[r as int]),
                ));
                match self.action {
                    Action::HALT => {
                        assert(self@.first_failing(before.records, p as int, r as int));
                        assert(self@.any_failing(before.records, p as int));
                        proof {
                            let w = self@.halting(before.records, p as int);
                            assert(self@.first_failing(before.records, p as int, w));
                            if w < r {
                                assert(!self@.fails(before.records[w], p as int));
                            }
                            if r < w {
                                assert(!self@.fails(before.records[r as int], p as int));
                            }
                        }
                        return Outcome::Halted(self.failure_of(table.records[r].id));
                    },
                    Action::DISCARD => {
                        table.records[r].discarded = true;
                    },
                    Action::NOTIFY => {},
                }
            }
            r += 1;
        }
        assert(before.records.take(r as int) =~= before.records);
        match self.action {
            Action::DISCARD => {
                assert(table@.records =~= self@.discarding(before).records);
                Outcome::Applied(no_failures())
            },
            Action::NOTIFY => Outcome::Applied(reported),
            Action::HALT => Outcome::Applied(no_failures()),
        }
    }
}

impl Executable for Instruction {
    open spec fn effect(&self, t: TableView) -> Step {
        self@.effect(t)
    }

    fn execute(&self, table: &mut Table) -> (outcome: Outcome) {
        match self {
            Instruction::ADD(inner) => inner.execute(table),
            Instruction::ALIAS(inner) => inner.execute(table),
            Instruction::MERGE(inner) => inner.execute(table),
            Instruction::IGNORE(inner) => inner.execute(table),
            Instruction::COERCE(inner) => inner.execute(table),
            Instruction::RENAME(inner) => inner.execute(table),
            Instruction::FILTER(inner) => inner.execute(table),
            Instruction::DISTINCT(inner) => inner.execute(table),
            Instruction::VALIDATE(inner) => inner.execute(table),
        }
    }
}

} // verus!
