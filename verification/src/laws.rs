//! What holds of every instruction and every run.

use crate::adapters::output::{kept, well_typed};
use crate::engine::{lemma_without_len, pick, without};
use crate::grammar::{Action, Type};
use crate::instructions::{
    AddView, CoerceView, DistinctView, FilterView, InstructionView, ValidateView,
};
use crate::number::{compare, conforms};
use crate::patterns::fits;
use crate::process::{after, run_from, Event, RunState, Stage};
use crate::table::{addressed, ingested, lemma_known_position, RecordView, TableView};
use vstd::prelude::*;

verus! {

/// Whatever the instruction, a well-formed table stays well formed: every
/// record holds one value for each field, ids run from 0 in table order, and
/// no name addresses two fields.
pub proof fn lemma_effect_keeps_wf(instruction: InstructionView, t: TableView)
    requires
        t.wf(),
    ensures
        instruction.effect(t).table.wf(),
{
    lemma_effect_keeps_names(instruction, t);
    let after = instruction.effect(t).table;
    match instruction {
        InstructionView::IGNORE(inner) => {
            if inner.applicable(t) {
                let cols = t.positions(inner.fields);
                assert(after == inner.apply(t));
                assert forall|r: int| 0 <= r < after.records.len() implies (
                #[trigger] after.records[r]).values.len() == after.fields.len()
                    && after.records[r].id == r by {
                    assert(t.records[r].values.len() == t.fields.len());
                    assert(after.records[r].values == without(t.records[r].values, cols));
                    lemma_without_len(t.records[r].values, t.fields, cols);
                }
            }
        },
        InstructionView::MERGE(inner) => {
            if inner.applicable(t) {
                let cols = t.positions(inner.fields);
                assert(after == inner.apply(t));
                assert forall|r: int| 0 <= r < after.records.len() implies (
                #[trigger] after.records[r]).values.len() == after.fields.len()
                    && after.records[r].id == r by {
                    assert(t.records[r].values.len() == t.fields.len());
                    lemma_without_len(t.records[r].values, t.fields, cols);
                }
            }
        },
        InstructionView::ALIAS(inner) => {
            if inner.applicable(t) {
                lemma_known_position(t, inner.field);
            }
        },
        InstructionView::RENAME(inner) => {
            if inner.applicable(t) {
                lemma_known_position(t, inner.field);
            }
        },
        _ => {},
    }
}

/// The positions that `without` keeps of a sequence of length `n`, in order.
pub open spec fn origins(n: nat, cols: Seq<int>) -> Seq<int>
    decreases n,
{
    if n == 0 {
        Seq::<int>::empty()
    } else if cols.contains(n - 1) {
        origins((n - 1) as nat, cols)
    } else {
        origins((n - 1) as nat, cols).push(n - 1)
    }
}

/// What `without` keeps are the elements at the kept positions: these rise
/// strictly, lie in the sequence and are none of the dropped ones.
pub proof fn lemma_without_origins<A>(s: Seq<A>, cols: Seq<int>)
    ensures
        origins(s.len(), cols).len() == without(s, cols).len(),
        forall|i: int|
            0 <= i < without(s, cols).len() ==> 0 <= (#[trigger] origins(s.len(), cols)[i])
                < s.len() && !cols.contains(origins(s.len(), cols)[i]) && without(s, cols)[i]
                == s[origins(s.len(), cols)[i]],
        forall|i: int, j: int|
            0 <= i < j < without(s, cols).len() ==> (#[trigger] origins(s.len(), cols)[i]) < (
            #[trigger] origins(s.len(), cols)[j]),
    decreases s.len(),
{
    if s.len() > 0 {
        lemma_without_origins(s.drop_last(), cols);
    }
}

/// Whatever the instruction, a schema in which no name addresses two fields
/// stays such a schema.
pub proof fn lemma_effect_keeps_names(instruction: InstructionView, t: TableView)
    requires
        t.distinct_names(),
    ensures
        instruction.effect(t).table.distinct_names(),
{
    let after = instruction.effect(t).table;
    match instruction {
        InstructionView::ADD(inner) => {
            if inner.applicable(t) {
                let n = t.fields.len() as int;
                assert forall|i: int, j: int, name: Seq<char>| #[trigger]
                    addressed(after.fields, i, j, name) implies i == j by {
                    if i < n && j < n {
                        assert(addressed(t.fields, i, j, name));
                    } else if i < n {
                        assert(t.fields[i].answers(name));
                        assert(name == inner.fields[j - n]);
                        assert(t.known(inner.fields[j - n]));
                    } else if j < n {
                        assert(t.fields[j].answers(name));
                        assert(name == inner.fields[i - n]);
                        assert(t.known(inner.fields[i - n]));
                    } else {
                        assert(inner.fields[i - n] == inner.fields[j - n]);
                    }
                }
            }
        },
        InstructionView::ALIAS(inner) => {
            if inner.applicable(t) {
                lemma_known_position(t, inner.field);
                let p = t.position(inner.field);
                assert forall|i: int, j: int, name: Seq<char>| #[trigger]
                    addressed(after.fields, i, j, name) implies i == j by {
                    if i != j {
                        let other = if i == p {
                            j
                        } else {
                            i
                        };
                        assert(t.fields[other].answers(name));
                        if i == p || j == p {
                            if name == inner.to {
                                assert(t.known(inner.to));
                            } else {
                                assert(t.fields[p].aliases.push(inner.to).contains(name)
                                    ==> t.fields[p].aliases.contains(name)) by {
                                    if t.fields[p].aliases.push(inner.to).contains(name) {
                                        let k = choose|k: int|
                                            0 <= k < t.fields[p].aliases.push(inner.to).len()
                                                && t.fields[p].aliases.push(inner.to)[k] == name;
                                        assert(t.fields[p].aliases[k] == name);
                                    }
                                }
                                assert(t.fields[p].answers(name));
                                assert(addressed(t.fields, p, other, name));
                            }
                        } else {
                            assert(addressed(t.fields, i, j, name));
                        }
                    }
                }
            }
        },
        InstructionView::RENAME(inner) => {
            if inner.applicable(t) {
                lemma_known_position(t, inner.field);
                let p = t.position(inner.field);
                assert forall|i: int, j: int, name: Seq<char>| #[trigger]
                    addressed(after.fields, i, j, name) implies i == j by {
                    if i != j {
                        let other = if i == p {
                            j
                        } else {
                            i
                        };
                        assert(t.fields[other].answers(name));
                        if i == p || j == p {
                            if name == inner.to {
                                assert(t.known(inner.to));
                            } else {
                                assert(t.fields[p].answers(name));
                                assert(addressed(t.fields, p, other, name));
                            }
                        } else {
                            assert(addressed(t.fields, i, j, name));
                        }
                    }
                }
            }
        },
        InstructionView::COERCE(inner) => {
            if inner.applicable(t) {
                assert forall|i: int, j: int, name: Seq<char>| #[trigger]
                    addressed(after.fields, i, j, name) implies i == j by {
                    assert(addressed(t.fields, i, j, name));
                }
            }
        },
        InstructionView::IGNORE(inner) => {
            if inner.applicable(t) {
                let cols = t.positions(inner.fields);
                lemma_without_origins(t.fields, cols);
                let from = origins(t.fields.len(), cols);
                assert forall|i: int, j: int, name: Seq<char>| #[trigger]
                    addressed(after.fields, i, j, name) implies i == j by {
                    assert(addressed(t.fields, from[i], from[j], name));
                    if i < j {
                        assert(from[i] < from[j]);
                    }
                    if j < i {
                        assert(from[j] < from[i]);
                    }
                }
            }
        },
        InstructionView::MERGE(inner) => {
            if inner.applicable(t) {
                let cols = t.positions(inner.fields);
                lemma_without_origins(t.fields, cols);
                let from = origins(t.fields.len(), cols);
                let n = without(t.fields, cols).len() as int;
                assert forall|i: int, j: int, name: Seq<char>| #[trigger]
                    addressed(after.fields, i, j, name) implies i == j by {
                    if i < n && j < n {
                        assert(addressed(t.fields, from[i], from[j], name));
                        if i < j {
                            assert(from[i] < from[j]);
                        }
                        if j < i {
                            assert(from[j] < from[i]);
                        }
                    } else if i < n {
                        assert(name == inner.to);
                        assert(t.fields[from[i]].answers(inner.to));
                        assert(cols.contains(from[i]));
                    } else if j < n {
                        assert(name == inner.to);
                        assert(t.fields[from[j]].answers(inner.to));
                        assert(cols.contains(from[j]));
                    }
                }
            }
        },
        _ => {},
    }
}

/// No instruction adds, removes, reorders or renumbers records, and none
/// brings a discarded record back.
pub proof fn lemma_effect_keeps_records(instruction: InstructionView, t: TableView)
    ensures
        instruction.effect(t).table.records.len() == t.records.len(),
        forall|r: int|
            0 <= r < t.records.len() ==> (#[trigger] instruction.effect(t).table.records[r]).id
                == t.records[r].id,
        forall|r: int|
            0 <= r < t.records.len() && t.records[r].discarded ==> (#[trigger] instruction.effect(
                t,
            ).table.records[r]).discarded,
{
}

/// An instruction that is misconfigured leaves the table as it is.
pub proof fn lemma_misconfigured_changes_nothing(instruction: InstructionView, t: TableView)
    requires
        instruction.effect(t).outcome is Misconfigured,
    ensures
        instruction.effect(t).table == t,
{
}

/// Carrying out `DISTINCT` a second time changes nothing: on a table that it
/// has worked on it discards no further record.
pub proof fn lemma_distinct_idempotent(distinct: DistinctView, t: TableView)
    ensures
        distinct.effect(distinct.effect(t).table) == distinct.effect(t),
{
    if distinct.applicable(t) {
        let once = distinct.apply(t);
        assert(once.fields == t.fields);
        assert(once.positions(distinct.fields) == t.positions(distinct.fields));
        assert(once.all_known(distinct.fields));
        let twice = distinct.apply(once);
        assert forall|j: int| 0 <= j < once.records.len() implies twice.records[j]
            == once.records[j] by {
            if distinct.repeats(once, j) {
                let cols = t.positions(distinct.fields);
                let i = choose|i: int|
                    0 <= i < j && !(#[trigger] once.records[i]).discarded && pick(
                        once.records[i].values,
                        cols,
                    ) == pick(once.records[j].values, cols);
                assert(!t.records[i].discarded);
                assert(pick(t.records[i].values, cols) == pick(t.records[j].values, cols));
                assert(distinct.repeats(t, j));
            }
        }
        assert(twice.records =~= once.records);
    }
}

/// `ADD` on a table that it fits: the table gains the listed fields, of the
/// given type and without aliases, behind the fields it has; every record
/// keeps its values and holds the default in each new column; no record is
/// added or lost.
pub proof fn lemma_add_gains_fields(add: AddView, t: TableView)
    requires
        t.wf(),
        add.applicable(t),
    ensures
        ({
            let after = add.effect(t).table;
            let n = t.fields.len() as int;
            &&& after.fields.len() == n + add.fields.len()
            &&& after.fields.take(n) == t.fields
            &&& forall|k: int|
                0 <= k < add.fields.len() ==> (#[trigger] after.fields[n + k]).name
                    == add.fields[k] && after.fields[n + k].typed == add.typed
            &&& after.records.len() == t.records.len()
            &&& forall|r: int|
                0 <= r < t.records.len() ==> (#[trigger] after.records[r]).values.take(n)
                    == t.records[r].values
            &&& forall|r: int, k: int|
                0 <= r < t.records.len() && 0 <= k < add.fields.len()
                    ==> #[trigger] after.records[r].values[n + k] == add.default
        }),
{
    let after = add.effect(t).table;
    let n = t.fields.len() as int;
    assert(after.fields.take(n) =~= t.fields);
    assert forall|r: int| 0 <= r < t.records.len() implies (
    #[trigger] after.records[r]).values.take(n) == t.records[r].values by {
        assert(t.records[r].values.len() == n);
        assert(after.records[r].values.take(n) =~= t.records[r].values);
    }
    assert forall|r: int, k: int|
        0 <= r < t.records.len() && 0 <= k < add.fields.len()
        implies #[trigger] after.records[r].values[n + k] == add.default by {
        assert(t.records[r].values.len() == n);
    }
}

/// Every record holds in field `c` a value that reads as the type.
pub open spec fn column_conforms(t: TableView, c: int, typed: Type) -> bool {
    forall|r: int|
        0 <= r < t.records.len() ==> conforms((#[trigger] t.records[r]).values[c], typed)
}

/// `COERCE` with a rescue value that reads as the type leaves only values that
/// read as the type in the listed fields, and declares those fields to be of
/// the type.
pub proof fn lemma_coerce_conforms(coerce: CoerceView, t: TableView)
    requires
        t.wf(),
        coerce.applicable(t),
        conforms(coerce.rescue, coerce.typed),
    ensures
        forall|k: int|
            0 <= k < coerce.fields.len() ==> column_conforms(
                coerce.effect(t).table,
                #[trigger] t.position(coerce.fields[k]),
                coerce.typed,
            ) && coerce.effect(t).table.fields[t.position(coerce.fields[k])].typed
                == coerce.typed,
{
    let after = coerce.effect(t).table;
    let cols = t.positions(coerce.fields);
    assert forall|k: int| 0 <= k < coerce.fields.len() implies column_conforms(
        after,
        #[trigger] t.position(coerce.fields[k]),
        coerce.typed,
    ) && after.fields[t.position(coerce.fields[k])].typed == coerce.typed by {
        let c = t.position(coerce.fields[k]);
        lemma_known_position(t, coerce.fields[k]);
        assert(cols[k] == c);
        assert(cols.contains(c));
        assert forall|r: int| 0 <= r < after.records.len() implies conforms(
            (#[trigger] after.records[r]).values[c],
            coerce.typed,
        ) by {
            assert(t.records[r].values.len() == t.fields.len());
        }
    }
}

/// After a `FILTER` that fits the table, the comparison holds of every record
/// that is not discarded, in each listed field.
pub proof fn lemma_filter_keeps_matching(filter: FilterView, t: TableView)
    requires
        filter.applicable(t),
    ensures
        ({
            let after = filter.effect(t).table;
            let cols = t.positions(filter.fields);
            forall|r: int, k: int|
                0 <= r < after.records.len() && !(#[trigger] after.records[r]).discarded && 0 <= k
                    < cols.len() ==> compare(
                    after.records[r].values[#[trigger] cols[k]],
                    filter.expression,
                    filter.value,
                ) == Some(true)
        }),
{
    let after = filter.effect(t).table;
    let cols = t.positions(filter.fields);
    assert forall|r: int, k: int|
        0 <= r < after.records.len() && !(#[trigger] after.records[r]).discarded && 0 <= k
            < cols.len() implies compare(
        after.records[r].values[#[trigger] cols[k]],
        filter.expression,
        filter.value,
    ) == Some(true) by {
        assert(!t.records[r].discarded);
        assert(filter.defined(t.records[r].values, cols));
        assert(!filter.rejects(t.records[r].values, cols));
    }
}

/// After a `VALIDATE` that discards, every record that is not discarded has a
/// value of the format in the field.
pub proof fn lemma_validate_keeps_fitting(validate: ValidateView, t: TableView)
    requires
        t.known(validate.field),
        validate.action == Action::DISCARD,
    ensures
        ({
            let after = validate.effect(t).table;
            forall|r: int|
                0 <= r < after.records.len() && !(#[trigger] after.records[r]).discarded ==> fits(
                    validate.format,
                    after.records[r].values[t.position(validate.field)],
                )
        }),
{
}

/// After a `DISTINCT` that fits the table, no two records that are not
/// discarded hold the same values in the listed fields; and a record that
/// `DISTINCT` discarded repeats an earlier record that is kept.
pub proof fn lemma_distinct_leaves_no_repeat(distinct: DistinctView, t: TableView)
    requires
        distinct.applicable(t),
    ensures
        ({
            let after = distinct.effect(t).table;
            let cols = t.positions(distinct.fields);
            &&& forall|i: int, j: int|
                0 <= i < j < after.records.len() && !(#[trigger] after.records[i]).discarded && !(
                #[trigger] after.records[j]).discarded ==> pick(after.records[i].values, cols)
                    != pick(after.records[j].values, cols)
            &&& forall|j: int|
                0 <= j < after.records.len() && (#[trigger] after.records[j]).discarded
                    && !t.records[j].discarded ==> exists|i: int|
                    0 <= i < j && !(#[trigger] after.records[i]).discarded && pick(
                        after.records[i].values,
                        cols,
                    ) == pick(after.records[j].values, cols)
        }),
{
    let after = distinct.effect(t).table;
    let cols = t.positions(distinct.fields);
    assert forall|i: int, j: int|
        0 <= i < j < after.records.len() && !(#[trigger] after.records[i]).discarded && !(
        #[trigger] after.records[j]).discarded implies pick(after.records[i].values, cols) != pick(
        after.records[j].values,
        cols,
    ) by {
        assert(!t.records[i].discarded);
        assert(!distinct.repeats(t, j));
    }
    assert forall|j: int|
        0 <= j < after.records.len() && (#[trigger] after.records[j]).discarded
            && !t.records[j].discarded implies exists|i: int|
        0 <= i < j && !(#[trigger] after.records[i]).discarded && pick(
            after.records[i].values,
            cols,
        ) == pick(after.records[j].values, cols) by {
        lemma_first_of_key(distinct, t, j);
    }
}

/// A record that repeats an earlier one repeats one that `DISTINCT` keeps.
proof fn lemma_first_of_key(distinct: DistinctView, t: TableView, j: int)
    requires
        0 <= j < t.records.len(),
        distinct.repeats(t, j),
    ensures
        exists|i: int|
            0 <= i < j && !(#[trigger] distinct.apply(t).records[i]).discarded && pick(
                distinct.apply(t).records[i].values,
                t.positions(distinct.fields),
            ) == pick(distinct.apply(t).records[j].values, t.positions(distinct.fields)),
    decreases j,
{
    let cols = t.positions(distinct.fields);
    let i = choose|i: int|
        0 <= i < j && !(#[trigger] t.records[i]).discarded && pick(t.records[i].values, cols)
            == pick(t.records[j].values, cols);
    if distinct.repeats(t, i) {
        lemma_first_of_key(distinct, t, i);
        let h = choose|h: int|
            0 <= h < i && !(#[trigger] distinct.apply(t).records[h]).discarded && pick(
                distinct.apply(t).records[h].values,
                cols,
            ) == pick(distinct.apply(t).records[i].values, cols);
        assert(!distinct.apply(t).records[h].discarded);
    } else {
        assert(!distinct.apply(t).records[i].discarded);
    }
}

/// A table as ingestion makes it can always be written: every field is of
/// type `STRING`, and every text reads as that.
pub proof fn lemma_ingested_writes(header: Seq<Seq<char>>, rows: Seq<Seq<Seq<char>>>)
    ensures
        well_typed(ingested(header, rows)),
{
}

/// An event that fits a phase leads to that phase again or to the one behind
/// it: a run never goes back.
pub proof fn lemma_stage_forward(stage: Stage, event: Event)
    ensures
        stage.after(event) matches Some(next) ==> stage.rank() <= next.rank() <= stage.rank() + 1,
{
}

/// The records that are written are those that are not discarded.
pub proof fn lemma_kept(records: Seq<RecordView>)
    ensures
        kept(records).len() <= records.len(),
        forall|i: int| 0 <= i < kept(records).len() ==> !(#[trigger] kept(records)[i]).discarded,
        forall|r: int|
            0 <= r < records.len() && !(#[trigger] records[r]).discarded ==> kept(
                records,
            ).contains(records[r]),
    decreases records.len(),
{
    if records.len() > 0 {
        let init = records.drop_last();
        lemma_kept(init);
        assert forall|r: int|
            0 <= r < records.len() && !(#[trigger] records[r]).discarded implies kept(
            records,
        ).contains(records[r]) by {
            if r < records.len() - 1 {
                assert(init[r] == records[r]);
                let at = choose|at: int| 0 <= at < kept(init).len() && kept(init)[at] == init[r];
                assert(kept(records)[at] == records[r]);
            } else {
                assert(kept(records)[kept(records).len() - 1] == records[r]);
            }
        }
    }
}

/// Every executed instruction adds exactly one entry to the audit log, behind
/// the entries that are there. Without a halt every instruction is executed.
pub proof fn lemma_one_entry_each(state: RunState, instructions: Seq<InstructionView>)
    ensures
        ({
            let end = run_from(state, instructions);
            &&& state.logs.len() <= end.logs.len() <= state.logs.len() + instructions.len()
            &&& end.logs.take(state.logs.len() as int) == state.logs
            &&& !end.halted ==> end.logs.len() == state.logs.len() + instructions.len()
            &&& state.halted ==> end == state
        }),
    decreases instructions.len(),
{
    if instructions.len() > 0 {
        let init = instructions.drop_last();
        lemma_one_entry_each(state, init);
        let mid = run_from(state, init);
        let end = after(mid, instructions.last());
        assert(end.logs.take(state.logs.len() as int) =~= mid.logs.take(state.logs.len() as int));
    } else {
        assert(state.logs.take(state.logs.len() as int) =~= state.logs);
    }
}

/// A run keeps a well-formed table well formed.
pub proof fn lemma_run_keeps_wf(state: RunState, instructions: Seq<InstructionView>)
    requires
        state.table.wf(),
    ensures
        run_from(state, instructions).table.wf(),
    decreases instructions.len(),
{
    if instructions.len() > 0 {
        lemma_run_keeps_wf(state, instructions.drop_last());
        lemma_effect_keeps_wf(
            instructions.last(),
            run_from(state, instructions.drop_last()).table,
        );
    }
}

} // verus!
