//! The table that instructions work on: an ordered schema of named, typed
//! fields and the records that hold one value for each field.

use crate::grammar::Type;
use crate::text::{copy_strings, str_eq};
use vstd::prelude::*;
use vstd::string::*;

verus! {

/// A named, typed column. Besides its name a field may answer to aliases.
#[derive(Debug)]
pub struct Field {
    pub name: String,
    pub typed: Type,
    pub aliases: Vec<String>,
}

/// A field as plain values.
pub struct FieldView {
    pub name: Seq<char>,
    pub typed: Type,
    pub aliases: Seq<Seq<char>>,
}

impl FieldView {
    /// Whether the field can be addressed by `name`.
    pub open spec fn answers(self, name: Seq<char>) -> bool {
        self.name == name || self.aliases.contains(name)
    }
}

/// Some name addresses both fields.
pub open spec fn shared(a: FieldView, b: FieldView) -> bool {
    exists|name: Seq<char>| a.answers(name) && b.answers(name)
}

impl View for Field {
    type V = FieldView;

    open spec fn view(&self) -> FieldView {
        FieldView { name: self.name@, typed: self.typed, aliases: self.aliases.deep_view() }
    }
}

impl DeepView for Field {
    type V = FieldView;

    open spec fn deep_view(&self) -> FieldView {
        self@
    }
}

impl Field {
    /// A field of type `STRING` without aliases, as ingestion creates it.
    pub fn new(name: &str) -> (r: Field)
        ensures
            r@ == (FieldView {
                name: name@,
                typed: Type::STRING,
                aliases: Seq::<Seq<char>>::empty(),
            }),
    {
        let aliases: Vec<String> = Vec::new();
        assert(aliases.deep_view() =~= Seq::<Seq<char>>::empty());
        Field { name: name.to_owned(), typed: Type::STRING, aliases }
    }

    /// Whether the field can be addressed by `name`.
    pub fn answers_to(&self, name: &str) -> (r: bool)
        ensures
            r == self@.answers(name@),
    {
        if str_eq(self.name.as_str(), name) {
            return true;
        }
        let mut i: usize = 0;
        while i < self.aliases.len()
            invariant
                i <= self.aliases.len(),
                forall|k: int| 0 <= k < i ==> self.aliases.deep_view()[k] != name@,
            decreases self.aliases.len() - i,
        {
            if str_eq(self.aliases[i].as_str(), name) {
                assert(self.aliases.deep_view()[i as int] == name@);
                return true;
            }
            i += 1;
        }
        false
    }

    /// Whether some name addresses both this field and the other.
    pub fn overlaps(&self, other: &Field) -> (r: bool)
        ensures
            r == shared(self@, other@),
    {
        if other.answers_to(self.name.as_str()) {
            assert(self@.answers(self.name@) && other@.answers(self.name@));
            return true;
        }
        let mut k: usize = 0;
        while k < self.aliases.len()
            invariant
                k <= self.aliases.len(),
                !other@.answers(self.name@),
                forall|a: int|
                    0 <= a < k ==> !other@.answers(#[trigger] self.aliases.deep_view()[a]),
            decreases self.aliases.len() - k,
        {
            assert(self.aliases.deep_view()[k as int] == self.aliases[k as int]@);
            if other.answers_to(self.aliases[k].as_str()) {
                assert(self@.answers(self.aliases[k as int]@));
                return true;
            }
            k += 1;
        }
        proof {
            if shared(self@, other@) {
                let name = choose|name: Seq<char>| self@.answers(name) && other@.answers(name);
                if self@.name != name {
                    let at = choose|at: int|
                        0 <= at < self@.aliases.len() && self@.aliases[at] == name;
                    assert(!other@.answers(self.aliases.deep_view()[at]));
                }
            }
        }
        false
    }

    /// A copy of the field.
    pub fn duplicate(&self) -> (r: Field)
        ensures
            r@ == self@,
    {
        Field {
            name: self.name.clone(),
            typed: self.typed,
            aliases: copy_strings(&self.aliases),
        }
    }
}

/// One row: its identity, its values in the order of the fields, and whether
/// it has been discarded. A discarded record stays in the table.
#[derive(Debug)]
pub struct Record {
    pub id: u64,
    pub discarded: bool,
    pub values: Vec<String>,
}

/// A record as plain values.
pub struct RecordView {
    pub id: u64,
    pub discarded: bool,
    pub values: Seq<Seq<char>>,
}

impl View for Record {
    type V = RecordView;

    open spec fn view(&self) -> RecordView {
        RecordView { id: self.id, discarded: self.discarded, values: self.values.deep_view() }
    }
}

impl DeepView for Record {
    type V = RecordView;

    open spec fn deep_view(&self) -> RecordView {
        self@
    }
}

impl Record {
    /// A record that is not discarded.
    pub fn new(id: u64, values: Vec<String>) -> (r: Record)
        ensures
            r@ == (RecordView { id, discarded: false, values: values.deep_view() }),
    {
        Record { id, values, discarded: false }
    }
}

/// The fields and the records they describe.
#[derive(Debug)]
pub struct Table {
    pub fields: Vec<Field>,
    pub records: Vec<Record>,
}

/// A table as plain values.
pub struct TableView {
    pub fields: Seq<FieldView>,
    pub records: Seq<RecordView>,
}

impl View for Table {
    type V = TableView;

    open spec fn view(&self) -> TableView {
        TableView { fields: self.fields.deep_view(), records: self.records.deep_view() }
    }
}

/// The fields at positions `i` and `j` both answer to `name`.
pub open spec fn addressed(fields: Seq<FieldView>, i: int, j: int, name: Seq<char>) -> bool {
    &&& 0 <= i < fields.len()
    &&& 0 <= j < fields.len()
    &&& fields[i].answers(name)
    &&& fields[j].answers(name)
}

/// Position `i` holds the first field that answers to `name`.
pub open spec fn leads(fields: Seq<FieldView>, name: Seq<char>, i: int) -> bool {
    &&& 0 <= i < fields.len()
    &&& fields[i].answers(name)
    &&& forall|k: int| 0 <= k < i ==> !(#[trigger] fields[k]).answers(name)
}

impl TableView {
    /// Every record holds one value for each field.
    pub open spec fn aligned(self) -> bool {
        forall|r: int|
            0 <= r < self.records.len() ==> (#[trigger] self.records[r]).values.len()
                == self.fields.len()
    }

    /// Records are identified by their position: ids run from 0 in table order.
    pub open spec fn numbered(self) -> bool {
        forall|r: int| 0 <= r < self.records.len() ==> (#[trigger] self.records[r]).id == r
    }

    /// No name addresses two fields.
    pub open spec fn distinct_names(self) -> bool {
        forall|i: int, j: int, name: Seq<char>|
            #[trigger] addressed(self.fields, i, j, name) ==> i == j
    }

    /// The invariant of a table.
    pub open spec fn wf(self) -> bool {
        &&& self.aligned()
        &&& self.numbered()
        &&& self.distinct_names()
    }

    /// Some field answers to `name`.
    pub open spec fn known(self, name: Seq<char>) -> bool {
        exists|i: int| 0 <= i < self.fields.len() && (#[trigger] self.fields[i]).answers(name)
    }

    /// The position of the first field that answers to `name`.
    pub open spec fn position(self, name: Seq<char>) -> int {
        choose|i: int| leads(self.fields, name, i)
    }

    /// Every one of the names is known.
    pub open spec fn all_known(self, names: Seq<Seq<char>>) -> bool {
        forall|k: int| 0 <= k < names.len() ==> self.known(#[trigger] names[k])
    }

    /// The positions of the named fields, in the order of the names.
    pub open spec fn positions(self, names: Seq<Seq<char>>) -> Seq<int> {
        Seq::new(names.len(), |k: int| self.position(names[k]))
    }
}

/// The position of a known name is that of the first field that answers to it.
pub proof fn lemma_position(t: TableView, name: Seq<char>, i: int)
    requires
        leads(t.fields, name, i),
    ensures
        t.known(name),
        t.position(name) == i,
{
    let j = t.position(name);
    assert(leads(t.fields, name, j));
    if i < j {
        assert(!t.fields[i].answers(name));
    }
    if j < i {
        assert(!t.fields[j].answers(name));
    }
}

/// The position of a known name lies in the schema and answers to the name.
pub proof fn lemma_known_position(t: TableView, name: Seq<char>)
    requires
        t.known(name),
    ensures
        leads(t.fields, name, t.position(name)),
    decreases t.fields.len(),
{
    let w = choose|i: int| 0 <= i < t.fields.len() && (#[trigger] t.fields[i]).answers(name);
    lemma_first_exists(t.fields, name, w);
}

proof fn lemma_first_exists(fields: Seq<FieldView>, name: Seq<char>, w: int)
    requires
        0 <= w < fields.len(),
        fields[w].answers(name),
    ensures
        exists|i: int| leads(fields, name, i),
    decreases w,
{
    if exists|k: int| 0 <= k < w && (#[trigger] fields[k]).answers(name) {
        let k = choose|k: int| 0 <= k < w && (#[trigger] fields[k]).answers(name);
        lemma_first_exists(fields, name, k);
    } else {
        assert(leads(fields, name, w));
    }
}

impl Table {
    /// A table without fields and records.
    pub fn new() -> (r: Table)
        ensures
            r@.fields.len() == 0,
            r@.records.len() == 0,
            r@.wf(),
    {
        Table { fields: Vec::new(), records: Vec::new() }
    }

    /// The position of the first field that answers to `name`, if any does.
    pub fn find(&self, name: &str) -> (r: Option<usize>)
        ensures
            match r {
                Some(i) => self@.known(name@) && i == self@.position(name@) && i
                    < self.fields.len(),
                None => !self@.known(name@),
            },
    {
        let mut i: usize = 0;
        while i < self.fields.len()
            invariant
                i <= self.fields.len(),
                forall|k: int| 0 <= k < i ==> !(#[trigger] self@.fields[k]).answers(name@),
            decreases self.fields.len() - i,
        {
            if self.fields[i].answers_to(name) {
                proof {
                    assert(self@.fields[i as int] == self.fields[i as int]@);
                    assert(leads(self@.fields, name@, i as int));
                    lemma_position(self@, name@, i as int);
                }
                return Some(i);
            }
            assert(self@.fields[i as int] == self.fields[i as int]@);
            i += 1;
        }
        None
    }

    /// The positions of the named fields, if every name is known.
    pub fn resolve(&self, names: &Vec<String>) -> (r: Option<Vec<usize>>)
        ensures
            r is Some == self@.all_known(names.deep_view()),
            r matches Some(cols) ==> columns(cols@) == self@.positions(names.deep_view())
                && within(cols@, self.fields.len() as int),
    {
        let mut cols: Vec<usize> = Vec::new();
        let mut k: usize = 0;
        while k < names.len()
            invariant
                k <= names.len(),
                cols.len() == k,
                forall|j: int|
                    0 <= j < k ==> self@.known(#[trigger] names.deep_view()[j]) && cols@[j]
                        == self@.position(names.deep_view()[j]) && cols@[j] < self.fields.len(),
            decreases names.len() - k,
        {
            assert(names.deep_view()[k as int] == names[k as int]@);
            match self.find(names[k].as_str()) {
                None => {
                    return None;
                },
                Some(i) => {
                    cols.push(i);
                },
            }
            k += 1;
        }
        assert(columns(cols@) =~= self@.positions(names.deep_view()));
        assert(within(cols@, self.fields.len() as int)) by {
            assert forall|j: int| 0 <= j < cols@.len() implies (#[trigger] cols@[j])
                < self.fields.len() by {
                assert(self@.known(names.deep_view()[j]));
            }
        }
        Some(cols)
    }

    /// Whether the table is well formed: every record holds one value for each
    /// field, ids run from 0, and no name addresses two fields.
    pub fn is_wf(&self) -> (r: bool)
        ensures
            r == self@.wf(),
    {
        let mut i: usize = 0;
        while i < self.records.len()
            invariant
                i <= self.records.len(),
                forall|k: int|
                    0 <= k < i ==> (#[trigger] self@.records[k]).values.len()
                        == self@.fields.len() && self@.records[k].id == k,
            decreases self.records.len() - i,
        {
            assert(self@.records[i as int] == self.records[i as int]@);
            if self.records[i].values.len() != self.fields.len() || self.records[i].id
                != i as u64 {
                return false;
            }
            i += 1;
        }
        self.names_differ()
    }

    /// Whether no name addresses two fields.
    pub fn names_differ(&self) -> (r: bool)
        ensures
            r == self@.distinct_names(),
    {
        let mut j: usize = 0;
        while j < self.fields.len()
            invariant
                j <= self.fields.len(),
                forall|a: int, b: int|
                    0 <= a < b < j ==> !shared(
                        #[trigger] self@.fields[a],
                        #[trigger] self@.fields[b],
                    ),
            decreases self.fields.len() - j,
        {
            let mut i: usize = 0;
            while i < j
                invariant
                    i <= j < self.fields.len(),
                    forall|a: int|
                        0 <= a < i ==> !shared(#[trigger] self@.fields[a], self@.fields[j as int]),
                decreases j - i,
            {
                assert(self@.fields[i as int] == self.fields[i as int]@);
                assert(self@.fields[j as int] == self.fields[j as int]@);
                if self.fields[i].overlaps(&self.fields[j]) {
                    proof {
                        let name = choose|name: Seq<char>|
                            self@.fields[i as int].answers(name) && self@.fields[j as int].answers(
                                name,
                            );
                        assert(addressed(self@.fields, i as int, j as int, name));
                    }
                    return false;
                }
                i += 1;
            }
            j += 1;
        }
        proof {
            assert forall|a: int, b: int, name: Seq<char>| #[trigger]
                addressed(self@.fields, a, b, name) implies a == b by {
                if a < b {
                    assert(shared(self@.fields[a], self@.fields[b]));
                }
                if b < a {
                    assert(shared(self@.fields[b], self@.fields[a]));
                }
            }
        }
        true
    }
}

/// Why a header and rows do not make a table.
#[derive(Clone, Copy, Debug, PartialEq, Eq, Structural)]
pub enum LoadError {
    /// The header name at this position repeats an earlier one.
    RepeatedName(usize),
    /// The row at this position does not hold one value for each header name.
    Ragged(usize),
}

/// Row `r` is the first whose length is not `width`.
pub open spec fn first_ragged(rows: Seq<Seq<Seq<char>>>, width: int, r: int) -> bool {
    &&& 0 <= r < rows.len()
    &&& rows[r].len() != width
    &&& forall|i: int| 0 <= i < r ==> (#[trigger] rows[i]).len() == width
}

/// Every row holds `width` values.
pub open spec fn rectangular(rows: Seq<Seq<Seq<char>>>, width: int) -> bool {
    forall|i: int| 0 <= i < rows.len() ==> (#[trigger] rows[i]).len() == width
}

/// The table that ingestion makes of a header and rows: every field of type
/// `STRING`, every record kept, ids counted from 0 in the order of the rows.
pub open spec fn ingested(header: Seq<Seq<char>>, rows: Seq<Seq<Seq<char>>>) -> TableView {
    TableView {
        fields: Seq::new(
            header.len(),
            |k: int|
                FieldView {
                    name: header[k],
                    typed: Type::STRING,
                    aliases: Seq::<Seq<char>>::empty(),
                },
        ),
        records: Seq::new(
            rows.len(),
            |r: int| RecordView { id: r as u64, discarded: false, values: rows[r] },
        ),
    }
}

/// What loading a header and rows gives: the table, or the first repeated
/// header name, or else the first row of the wrong length.
pub open spec fn loaded(
    header: Seq<Seq<char>>,
    rows: Seq<Seq<Seq<char>>>,
    r: Result<TableView, LoadError>,
) -> bool {
    match r {
        Ok(t) => header.no_duplicates() && rectangular(rows, header.len() as int) && t == ingested(
            header,
            rows,
        ),
        Err(LoadError::RepeatedName(j)) => 0 <= j < header.len() && header.take(
            j as int,
        ).no_duplicates() && header.take(j as int).contains(header[j as int]),
        Err(LoadError::Ragged(i)) => header.no_duplicates() && first_ragged(
            rows,
            header.len() as int,
            i as int,
        ),
    }
}

/// A table made by ingestion is well formed.
pub proof fn lemma_ingested_wf(header: Seq<Seq<char>>, rows: Seq<Seq<Seq<char>>>)
    requires
        header.no_duplicates(),
        rectangular(rows, header.len() as int),
        rows.len() <= usize::MAX,
    ensures
        ingested(header, rows).wf(),
{
    let t = ingested(header, rows);
    assert forall|i: int, j: int, name: Seq<char>| #[trigger]
        addressed(t.fields, i, j, name) implies i == j by {
        assert(t.fields[i].name == name);
        assert(t.fields[j].name == name);
    }
}

impl Table {
    /// Makes a table of a header and rows.
    pub fn load(header: &Vec<String>, rows: &Vec<Vec<String>>) -> (r: Result<Table, LoadError>)
        ensures
            match r {
                Ok(t) => loaded(header.deep_view(), rows.deep_view(), Ok(t@)) && t@.wf(),
                Err(e) => loaded(header.deep_view(), rows.deep_view(), Err(e)),
            },
    {
        let width: usize = header.len();
        let mut fields: Vec<Field> = Vec::new();
        let mut j: usize = 0;
        assert(header.deep_view().take(0) =~= Seq::<Seq<char>>::empty());
        while j < width
            invariant
                j <= width == header.len(),
                fields.len() == j,
                header.deep_view().take(j as int).no_duplicates(),
                forall|k: int|
                    0 <= k < j ==> (#[trigger] fields[k])@ == ingested(
                        header.deep_view(),
                        rows.deep_view(),
                    ).fields[k],
            decreases width - j,
        {
            let mut i: usize = 0;
            while i < j
                invariant
                    i <= j < header.len(),
                    header.deep_view().take(j as int).no_duplicates(),
                    forall|a: int|
                        0 <= a < i ==> header.deep_view()[a] != header.deep_view()[j as int],
                decreases j - i,
            {
                if str_eq(header[i].as_str(), header[j].as_str()) {
                    assert(header.deep_view().take(j as int)[i as int]
                        == header.deep_view()[j as int]);
                    return Err(LoadError::RepeatedName(j));
                }
                i += 1;
            }
            fields.push(Field::new(header[j].as_str()));
            assert(header.deep_view().take(j + 1).no_duplicates()) by {
                let grown = header.deep_view().take(j + 1);
                assert forall|a: int, b: int|
                    0 <= a < grown.len() && 0 <= b < grown.len() && a != b implies grown[a]
                    != grown[b] by {
                    if a < j && b < j {
                        assert(header.deep_view().take(j as int)[a] == grown[a]);
                        assert(header.deep_view().take(j as int)[b] == grown[b]);
                    }
                }
            }
            j += 1;
        }
        assert(header.deep_view().take(width as int) =~= header.deep_view());
        let mut records: Vec<Record> = Vec::new();
        let mut r: usize = 0;
        while r < rows.len()
            invariant
                r <= rows.len(),
                records.len() == r,
                width == header.len(),
                header.deep_view().no_duplicates(),
                forall|i: int| 0 <= i < r ==> (#[trigger] rows.deep_view()[i]).len() == width,
                forall|i: int|
                    0 <= i < r ==> (#[trigger] records[i])@ == ingested(
                        header.deep_view(),
                        rows.deep_view(),
                    ).records[i],
            decreases rows.len() - r,
        {
            if rows[r].len() != width {
                assert(rows.deep_view()[r as int].len() == rows[r as int].len());
                return Err(LoadError::Ragged(r));
            }
            let values = copy_strings(&rows[r]);
            assert(rows.deep_view()[r as int] == rows[r as int].deep_view());
            records.push(Record::new(r as u64, values));
            r += 1;
        }
        let table = Table { fields, records };
        assert(table@.fields =~= ingested(header.deep_view(), rows.deep_view()).fields);
        assert(table@.records =~= ingested(header.deep_view(), rows.deep_view()).records);
        proof {
            lemma_ingested_wf(header.deep_view(), rows.deep_view());
        }
        Ok(table)
    }
}

/// Column positions as mathematical integers.
pub open spec fn columns(cols: Seq<usize>) -> Seq<int> {
    Seq::new(cols.len(), |k: int| cols[k] as int)
}

/// Every position lies below `width`.
pub open spec fn within(cols: Seq<usize>, width: int) -> bool {
    forall|k: int| 0 <= k < cols.len() ==> (#[trigger] cols[k]) < width
}

} // verus!
