//! Output as JSON: an array with one object for each record, each value of the
//! declared type of its field. The values are built and printed by the `json`
//! crate; what is proved here is which values are built.

use crate::adapters::output::{
    find_mistyped, kept, mistyped_at, reports, row_ok, well_typed, Mistyped, Optionals, Output,
    OutputAdapter, WriteError,
};
use crate::grammar::Type;
use crate::number::{
    conforms, integer_of, number_of, parse_integer, parse_number, parse_truth, truth_of, Number,
};
use crate::table::{addressed, Field, FieldView, Record, RecordView, Table, TableView};
use vstd::pervasive::unreached;
use vstd::prelude::*;
use vstd::string::*;

verus! {

/// The value type of the `json` crate.
#[verifier::external_type_specification]
#[verifier::external_body]
pub struct ExJsonValue(::json::JsonValue);

/// The error type of the `json` crate.
#[verifier::external_type_specification]
#[verifier::external_body]
pub struct ExJsonError(::json::Error);

/// What a JSON value holds. A number is held by its parts: a sign, a mantissa
/// and a power of ten. An object holds its entries in the order in which their
/// keys were first inserted.
pub enum Json {
    Null,
    Boolean(bool),
    Number { positive: bool, mantissa: nat, exponent: int },
    Text(Seq<char>),
    Array(Seq<Json>),
    Object(Seq<(Seq<char>, Json)>),
}

/// What a value of the `json` crate holds.
pub uninterp spec fn contents(value: ::json::JsonValue) -> Json;

/// The text that the `json` crate prints for a value, indented by `spaces`.
pub uninterp spec fn pretty_text(value: Json, spaces: u16) -> Seq<char>;

/// Mantissa and exponent without the trailing zeros that a negative exponent
/// makes unnecessary.
pub open spec fn stripped(mantissa: nat, exponent: int) -> (nat, int)
    decreases 0 - exponent,
{
    if exponent < 0 && mantissa % 10 == 0 {
        stripped(mantissa / 10, exponent + 1)
    } else {
        (mantissa, exponent)
    }
}

/// Some entry has the key.
pub open spec fn has_key(entries: Seq<(Seq<char>, Json)>, key: Seq<char>) -> bool {
    exists|i: int| 0 <= i < entries.len() && (#[trigger] entries[i]).0 == key
}

/// The entries after an insertion: a new key goes behind the others, a key
/// that is there keeps its place and gets the new value.
pub open spec fn put(entries: Seq<(Seq<char>, Json)>, key: Seq<char>, value: Json) -> Seq<
    (Seq<char>, Json),
> {
    if has_key(entries, key) {
        let at = choose|i: int| 0 <= i < entries.len() && (#[trigger] entries[i]).0 == key;
        entries.update(at, (key, value))
    } else {
        entries.push((key, value))
    }
}

/// `JsonValue::new_array` of the `json` crate: an array without elements.
#[verifier::external_body]
fn new_array() -> (r: ::json::JsonValue)
    ensures
        contents(r) == Json::Array(Seq::<Json>::empty()),
{
    ::json::JsonValue::new_array()
}

/// `JsonValue::new_object` of the `json` crate: an object without entries.
#[verifier::external_body]
fn new_object() -> (r: ::json::JsonValue)
    ensures
        contents(r) == Json::Object(Seq::<(Seq<char>, Json)>::empty()),
{
    ::json::JsonValue::new_object()
}

/// `JsonValue::from` a `String` of the `json` crate: the string value of that text.
#[verifier::external_body]
fn text_value(text: String) -> (r: ::json::JsonValue)
    ensures
        contents(r) == Json::Text(text@),
{
    ::json::JsonValue::from(text)
}

/// `JsonValue::from` a `bool` of the `json` crate: the boolean value.
#[verifier::external_body]
fn boolean_value(truth: bool) -> (r: ::json::JsonValue)
    ensures
        contents(r) == Json::Boolean(truth),
{
    ::json::JsonValue::from(truth)
}

/// `Number::from_parts` of the `json` crate, made a value by `JsonValue::from`:
/// the number with that sign, and with that mantissa and exponent once the
/// unnecessary trailing zeros are stripped.
#[verifier::external_body]
fn number_value(positive: bool, mantissa: u64, exponent: i16) -> (r: ::json::JsonValue)
    ensures
        contents(r) == (Json::Number {
            positive,
            mantissa: stripped(mantissa as nat, exponent as int).0,
            exponent: stripped(mantissa as nat, exponent as int).1,
        }),
{
    ::json::JsonValue::from(::json::number::Number::from_parts(positive, mantissa, exponent))
}

/// `JsonValue::push` of the `json` crate: on an array the value goes behind the
/// elements; anything else is left as it is and the call fails.
#[verifier::external_body]
fn push(array: &mut ::json::JsonValue, value: ::json::JsonValue) -> (r: Result<
    (),
    ::json::Error,
>)
    ensures
        match contents(*old(array)) {
            Json::Array(items) => r is Ok && contents(*final(array)) == Json::Array(
                items.push(contents(value)),
            ),
            _ => r is Err && contents(*final(array)) == contents(*old(array)),
        },
{
    array.push(value)
}

/// `JsonValue::insert` of the `json` crate: on an object the entry is inserted,
/// or overrides the entry of the same key; anything else is left as it is and
/// the call fails.
#[verifier::external_body]
fn insert(object: &mut ::json::JsonValue, key: &str, value: ::json::JsonValue) -> (r: Result<
    (),
    ::json::Error,
>)
    ensures
        match contents(*old(object)) {
            Json::Object(entries) => r is Ok && contents(*final(object)) == Json::Object(
                put(entries, key@, contents(value)),
            ),
            _ => r is Err && contents(*final(object)) == contents(*old(object)),
        },
{
    object.insert(key, value)
}

/// The widest indentation that is printed. Blocks are nested two deep, and the
/// `json` crate counts the spaces before a line in 16 bits.
pub const MAX_INDENT: u16 = 32767;

/// Neither an array nor an object.
pub open spec fn plain(value: Json) -> bool {
    !(value is Array) && !(value is Object)
}

/// An object whose values are plain.
pub open spec fn flat_object(value: Json) -> bool {
    value matches Json::Object(entries) && forall|k: int|
        0 <= k < entries.len() ==> plain((#[trigger] entries[k]).1)
}

/// An array of objects whose values are plain: blocks are nested two deep at
/// most.
pub open spec fn flat(value: Json) -> bool {
    value matches Json::Array(items) && forall|i: int|
        0 <= i < items.len() ==> flat_object(#[trigger] items[i])
}

/// `JsonValue::pretty` of the `json` crate: the text of the value, new blocks
/// indented by `spaces`. The crate multiplies the depth of a block by `spaces`
/// in 16 bits, so the value is to be nested two deep at most and `spaces` is
/// to be at most `MAX_INDENT`.
#[verifier::external_body]
fn pretty(value: &::json::JsonValue, spaces: u16) -> (r: String)
    requires
        spaces <= MAX_INDENT,
        flat(contents(*value)),
    ensures
        r@ == pretty_text(contents(*value), spaces),
{
    value.pretty(spaces)
}

/// The JSON number worth `units` divided by ten to the power `scale`.
pub open spec fn number_json(units: int, scale: nat) -> Json {
    let mantissa = if units >= 0 {
        units as nat
    } else {
        (-units) as nat
    };
    Json::Number {
        positive: units >= 0,
        mantissa: stripped(mantissa, -scale).0,
        exponent: stripped(mantissa, -scale).1,
    }
}

/// The JSON value that a stored text denotes under a declared type.
pub open spec fn json_of(value: Seq<char>, typed: Type) -> Json
    recommends
        conforms(value, typed),
{
    match typed {
        Type::STRING => Json::Text(value),
        Type::INTEGER => number_json(integer_of(value).unwrap() as int, 0),
        Type::FLOAT => number_json(
            number_of(value).unwrap().units as int,
            number_of(value).unwrap().scale as nat,
        ),
        Type::BOOLEAN => Json::Boolean(truth_of(value).unwrap()),
    }
}

/// The entries of the object of one record: for each field its name and the
/// value of the record, in the order of the fields.
pub open spec fn entries(values: Seq<Seq<char>>, fields: Seq<FieldView>) -> Seq<
    (Seq<char>, Json),
> {
    Seq::new(fields.len(), |c: int| (fields[c].name, json_of(values[c], fields[c].typed)))
}

/// The document that is written: an array with one object for each record
/// that is not discarded, in table order.
pub open spec fn document(t: TableView) -> Json {
    Json::Array(
        Seq::new(
            kept(t.records).len(),
            |i: int| Json::Object(entries(kept(t.records)[i].values, t.fields)),
        ),
    )
}

fn number_for(units: i64, scale: u8) -> (r: ::json::JsonValue)
    requires
        scale <= 18,
    ensures
        contents(r) == number_json(units as int, scale as nat),
{
    let exponent: i16 = -(scale as i16);
    if units >= 0 {
        number_value(true, units as u64, exponent)
    } else {
        let magnitude: i128 = -(units as i128);
        number_value(false, magnitude as u64, exponent)
    }
}

fn value_for(value: &String, typed: Type) -> (r: ::json::JsonValue)
    requires
        conforms(value@, typed),
    ensures
        contents(r) == json_of(value@, typed),
{
    match typed {
        Type::STRING => text_value(value.clone()),
        Type::INTEGER => match parse_integer(value.as_str()) {
            Some(n) => number_for(n, 0),
            None => unreached(),
        },
        Type::FLOAT => match parse_number(value.as_str()) {
            Some(n) => number_for(n.units, n.scale),
            None => unreached(),
        },
        Type::BOOLEAN => match parse_truth(value.as_str()) {
            Some(b) => boolean_value(b),
            None => unreached(),
        },
    }
}

fn object_for(record: &Record, fields: &Vec<Field>) -> (r: ::json::JsonValue)
    requires
        record@.values.len() == fields.len(),
        forall|c: int|
            0 <= c < fields.len() ==> conforms(#[trigger] record@.values[c], fields[c]@.typed),
        forall|i: int, j: int|
            0 <= i < j < fields.len() ==> (#[trigger] fields[i])@.name != (
            #[trigger] fields[j])@.name,
    ensures
        contents(r) == Json::Object(entries(record@.values, fields.deep_view())),
{
    let ghost all = entries(record@.values, fields.deep_view());
    let mut out = new_object();
    let mut c: usize = 0;
    assert(all.take(0) =~= Seq::<(Seq<char>, Json)>::empty());
    while c < fields.len()
        invariant
            c <= fields.len(),
            record@.values.len() == fields.len(),
            all == entries(record@.values, fields.deep_view()),
            forall|j: int|
                0 <= j < fields.len() ==> conforms(
                    #[trigger] record@.values[j],
                    fields[j]@.typed,
                ),
            forall|i: int, j: int|
                0 <= i < j < fields.len() ==> (#[trigger] fields[i])@.name != (
                #[trigger] fields[j])@.name,
            contents(out) == Json::Object(all.take(c as int)),
        decreases fields.len() - c,
    {
        assert(record@.values[c as int] == record.values[c as int]@);
        assert(conforms(record@.values[c as int], fields[c as int]@.typed));
        let value = value_for(&record.values[c], fields[c].typed);
        proof {
            let sofar = all.take(c as int);
            let key = fields[c as int]@.name;
            assert(!has_key(sofar, key)) by {
                if has_key(sofar, key) {
                    let at = choose|i: int| 0 <= i < sofar.len() && (#[trigger] sofar[i]).0 == key;
                    assert(fields[at]@.name == fields[c as int]@.name);
                }
            }
            assert(all.take(c + 1) =~= sofar.push(all[c as int]));
        }
        match insert(&mut out, fields[c].name.as_str(), value) {
            Ok(_) => {},
            Err(_) => unreached(),
        }
        c += 1;
    }
    assert(all.take(fields.len() as int) =~= all);
    out
}

/// The writer of JSON.
#[derive(Debug)]
pub struct Adapter;

impl Adapter {
    /// The document to write; or the first value that does not read as
    /// declared.
    pub fn document(&self, table: &Table) -> (r: Result<::json::JsonValue, Mistyped>)
        requires
            table@.wf(),
        ensures
            match r {
                Ok(value) => well_typed(table@) && contents(value) == document(table@),
                Err(e) => reports(table@, e),
            },
    {
        if let Some((row, column)) = find_mistyped(table) {
            return Err(mistyped_at(table, row, column));
        }
        let ghost rows = |records: Seq<RecordView>|
            Seq::new(
                kept(records).len(),
                |i: int| Json::Object(entries(kept(records)[i].values, table@.fields)),
            );
        let mut out = new_array();
        let mut r: usize = 0;
        assert(table@.records.take(0) =~= Seq::<RecordView>::empty());
        assert(rows(table@.records.take(0)) =~= Seq::<Json>::empty());
        proof {
            assert forall|i: int, j: int| 0 <= i < j < table.fields.len() implies (
            #[trigger] table.fields[i])@.name != (#[trigger] table.fields[j])@.name by {
                assert(table@.fields[i] == table.fields[i]@);
                assert(table@.fields[j] == table.fields[j]@);
                if table.fields[i]@.name == table.fields[j]@.name {
                    assert(addressed(table@.fields, i, j, table.fields[i]@.name));
                }
            }
        }
        while r < table.records.len()
            invariant
                r <= table.records.len(),
                table@.wf(),
                well_typed(table@),
                forall|i: int, j: int|
                    0 <= i < j < table.fields.len() ==> (#[trigger] table.fields[i])@.name != (
                    #[trigger] table.fields[j])@.name,
                rows == |records: Seq<RecordView>|
                    Seq::new(
                        kept(records).len(),
                        |i: int| Json::Object(entries(kept(records)[i].values, table@.fields)),
                    ),
                contents(out) == Json::Array(rows(table@.records.take(r as int))),
            decreases table.records.len() - r,
        {
            let ghost upto = table@.records.take(r + 1);
            let ghost sofar = rows(table@.records.take(r as int));
            assert(upto.drop_last() =~= table@.records.take(r as int));
            assert(upto.last() == table.records[r as int]@);
            assert(table@.records[r as int] == table.records[r as int]@);
            if !table.records[r].discarded {
                assert(row_ok(table@, r as int));
                assert forall|c: int| 0 <= c < table.fields.len() implies conforms(
                    #[trigger] table.records[r as int]@.values[c],
                    table.fields[c]@.typed,
                ) by {
                    assert(table@.fields[c] == table.fields[c]@);
                }
                let object = object_for(&table.records[r], &table.fields);
                match push(&mut out, object) {
                    Ok(_) => {},
                    Err(_) => unreached(),
                }
                assert(rows(upto) =~= sofar.push(
                    Json::Object(entries(table.records[r as int]@.values, table@.fields)),
                ));
            } else {
                assert(rows(upto) =~= sofar);
            }
            r += 1;
        }
        assert(table@.records.take(table.records.len() as int) =~= table@.records);
        Ok(out)
    }
}

/// The document of every table is an array of objects whose values are plain.
pub proof fn lemma_document_flat(t: TableView)
    ensures
        flat(document(t)),
{
    let items = document(t)->Array_0;
    assert forall|i: int| 0 <= i < items.len() implies flat_object(#[trigger] items[i]) by {
        let row = entries(kept(t.records)[i].values, t.fields);
        assert(items[i] == Json::Object(row));
        assert forall|k: int| 0 <= k < row.len() implies plain((#[trigger] row[k]).1) by {
            assert(row[k].1 == json_of(kept(t.records)[i].values[k], t.fields[k].typed));
        }
    }
}

impl OutputAdapter for Adapter {
    /// The indentation is at most `MAX_INDENT`.
    open spec fn accepts(&self, optionals: Optionals) -> bool {
        optionals.ispaces <= MAX_INDENT
    }

    /// A document can be made of every table.
    open spec fn writable(&self, t: TableView) -> bool {
        true
    }

    /// The document as the `json` crate prints it, indented as the options say.
    open spec fn renders(&self, t: TableView, optionals: Optionals, output: Output) -> bool {
        output matches Output::Json(text) && text@ == pretty_text(document(t), optionals.ispaces)
    }

    fn write(&self, table: &Table, optionals: &Optionals) -> (r: Result<Output, WriteError>) {
        if optionals.ispaces > MAX_INDENT {
            return Err(WriteError::Indent(optionals.ispaces));
        }
        match self.document(table) {
            Ok(value) => {
                proof {
                    lemma_document_flat(table@);
                }
                Ok(Output::Json(pretty(&value, optionals.ispaces)))
            },
            Err(e) => Err(WriteError::Mistyped(e)),
        }
    }
}

} // verus!
