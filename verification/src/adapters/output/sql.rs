//! Output as SQL statements: one `INSERT` for each record.

use crate::adapters::output::{
    field_names, find_mistyped, kept, mistyped_at, names, reports, well_typed, Mistyped,
    Optionals, Output, OutputAdapter, WriteError,
};
use crate::grammar::Type;
use crate::table::{Field, FieldView, Record, RecordView, Table, TableView};
use crate::text::{join, join_with};
use vstd::prelude::*;
use vstd::string::*;

verus! {

/// A value as an SQL statement writes it: text between single quotes, any
/// other type as it stands.
pub open spec fn sql_value(typed: Type, value: Seq<char>) -> Seq<char> {
    match typed {
        Type::STRING => "'"@ + value + "'"@,
        _ => value,
    }
}

/// The values of one record as an SQL statement writes them.
pub open spec fn sql_values(values: Seq<Seq<char>>, fields: Seq<FieldView>) -> Seq<Seq<char>> {
    Seq::new(fields.len(), |c: int| sql_value(fields[c].typed, values[c]))
}

/// The statement that inserts one row.
pub open spec fn statement(tname: Seq<char>, fields: Seq<Seq<char>>, values: Seq<Seq<char>>) -> Seq<
    char,
> {
    "INSERT INTO "@ + tname + " ("@ + join(fields, ", "@) + ") VALUES ("@ + join(values, ", "@)
        + ");"@
}

/// The statements that are written, one for each record that is not discarded.
pub open spec fn statements(t: TableView, tname: Seq<char>) -> Seq<Seq<char>> {
    Seq::new(
        kept(t.records).len(),
        |i: int| statement(tname, names(t.fields), sql_values(kept(t.records)[i].values, t.fields)),
    )
}

/// The writer of SQL statements.
#[derive(Debug)]
pub struct Adapter;

impl Adapter {
    /// A value as a statement writes it.
    pub fn parse_value(&self, typed: &Type, value: String) -> (r: String)
        ensures
            r@ == sql_value(*typed, value@),
    {
        match typed {
            Type::STRING => {
                let mut out = String::from_str("'");
                out.append(value.as_str());
                out.append("'");
                out
            },
            _ => value,
        }
    }

    /// The statement that inserts one row.
    pub fn build_statement(&self, tname: &String, fields: Vec<String>, values: Vec<String>) -> (r:
        String)
        ensures
            r@ == statement(tname@, fields.deep_view(), values.deep_view()),
    {
        let fields = join_with(&fields, ", ");
        let values = join_with(&values, ", ");
        let mut out = String::from_str("INSERT INTO ");
        out.append(tname.as_str());
        out.append(" (");
        out.append(fields.as_str());
        out.append(") VALUES (");
        out.append(values.as_str());
        out.append(");");
        out
    }

    fn format_values(&self, record: &Record, fields: &Vec<Field>) -> (r: Vec<String>)
        requires
            record@.values.len() == fields.len(),
        ensures
            r.deep_view() == sql_values(record@.values, fields.deep_view()),
    {
        let mut out: Vec<String> = Vec::new();
        let mut c: usize = 0;
        while c < fields.len()
            invariant
                c <= fields.len(),
                out.len() == c,
                record@.values.len() == fields.len(),
                forall|j: int|
                    0 <= j < c ==> (#[trigger] out[j])@ == sql_value(
                        fields[j]@.typed,
                        record@.values[j],
                    ),
            decreases fields.len() - c,
        {
            assert(record@.values[c as int] == record.values[c as int]@);
            out.push(self.parse_value(&fields[c].typed, record.values[c].clone()));
            c += 1;
        }
        assert(out.deep_view() =~= sql_values(record@.values, fields.deep_view()));
        out
    }

    /// The statements to write; or the first value that does not read as
    /// declared.
    pub fn lines(&self, table: &Table, optionals: &Optionals) -> (r: Result<Vec<String>, Mistyped>)
        requires
            table@.wf(),
        ensures
            match r {
                Ok(lines) => well_typed(table@) && lines.deep_view() == statements(
                    table@,
                    optionals.tname@,
                ),
                Err(e) => reports(table@, e),
            },
    {
        if let Some((row, column)) = find_mistyped(table) {
            return Err(mistyped_at(table, row, column));
        }
        let mut out: Vec<String> = Vec::new();
        let mut r: usize = 0;
        assert(table@.records.take(0) =~= Seq::<RecordView>::empty());
        assert(out.deep_view() =~= statements(
            TableView { fields: table@.fields, records: table@.records.take(0) },
            optionals.tname@,
        ));
        while r < table.records.len()
            invariant
                r <= table.records.len(),
                table@.wf(),
                out.deep_view() == statements(
                    TableView { fields: table@.fields, records: table@.records.take(r as int) },
                    optionals.tname@,
                ),
            decreases table.records.len() - r,
        {
            let ghost upto = table@.records.take(r + 1);
            let ghost sofar = out.deep_view();
            assert(upto.drop_last() =~= table@.records.take(r as int));
            assert(upto.last() == table.records[r as int]@);
            assert(table@.records[r as int] == table.records[r as int]@);
            if !table.records[r].discarded {
                let values = self.format_values(&table.records[r], &table.fields);
                let line = self.build_statement(
                    &optionals.tname,
                    field_names(&table.fields),
                    values,
                );
                out.push(line);
                assert(out.deep_view() =~= sofar.push(line@));
                assert(out.deep_view() =~= statements(
                    TableView { fields: table@.fields, records: upto },
                    optionals.tname@,
                ));
            }
            r += 1;
        }
        assert(table@.records.take(table.records.len() as int) =~= table@.records);
        Ok(out)
    }
}

impl OutputAdapter for Adapter {
    /// Every table name is taken as it stands.
    open spec fn accepts(&self, optionals: Optionals) -> bool {
        true
    }

    /// Statements can be made of every table.
    open spec fn writable(&self, t: TableView) -> bool {
        true
    }

    /// One statement for each record that is not discarded, into the table
    /// that the options name.
    open spec fn renders(&self, t: TableView, optionals: Optionals, output: Output) -> bool {
        output matches Output::Sql(lines) && lines.deep_view() == statements(t, optionals.tname@)
    }

    fn write(&self, table: &Table, optionals: &Optionals) -> (r: Result<Output, WriteError>) {
        match self.lines(table, optionals) {
            Ok(lines) => Ok(Output::Sql(lines)),
            Err(e) => Err(WriteError::Mistyped(e)),
        }
    }
}

} // verus!
