//! Reading and writing JSON text with `serde_json`.

use crate::json::{lemma_array_model, lemma_object_model, Json, JsonValue};
use vstd::prelude::*;

verus! {

broadcast use {lemma_array_model, lemma_object_model};

/// The document tree of `serde_json`.
#[verifier::external_type_specification]
#[verifier::external_body]
pub struct ExValue(serde_json::Value);

/// The error of `serde_json`.
#[verifier::external_type_specification]
#[verifier::external_body]
pub struct ExError(serde_json::Error);

/// The document that a `serde_json::Value` holds: its members in the order in
/// which the value keeps them.
pub uninterp spec fn value_model(value: serde_json::Value) -> JsonValue;

/// The document that `serde_json::from_str` reads from a text, or `None` where
/// it reports an error.
pub uninterp spec fn parsed(text: Seq<char>) -> Option<JsonValue>;

/// The text that `serde_json::to_string_pretty` writes for a document, or `None`
/// where it reports an error.
pub uninterp spec fn pretty(document: JsonValue) -> Option<Seq<char>>;

/// Whether no object of the document, at any depth, names a member twice.
pub open spec fn well_keyed(document: JsonValue) -> bool
    decreases document,
{
    match document {
        JsonValue::Array(items) => forall|i: int|
            0 <= i < items.len() ==> well_keyed(#[trigger] items[i]),
        JsonValue::Object(members) => {
            &&& forall|i: int, j: int|
                0 <= i < j < members.len() ==> (#[trigger] members[i]).0 != (
                #[trigger] members[j]).0
            &&& forall|i: int| 0 <= i < members.len() ==> well_keyed((#[trigger] members[i]).1)
        },
        _ => true,
    }
}

/// Calls `serde_json::from_str` for a `Value`. The contract names what was
/// read `parsed`; it claims nothing else of it.
#[verifier::external_body]
fn value_from_text(text: &str) -> (r: Result<serde_json::Value, serde_json::Error>)
    ensures
        r matches Ok(value) ==> parsed(text@) == Some(value_model(value)),
        r is Err ==> parsed(text@) is None,
{
    serde_json::from_str::<serde_json::Value>(text)
}

/// What a `serde_json::Value` is made of: which variant it is and what that
/// variant holds, the members of an object in the order of its map.
enum Parts<'a> {
    Null,
    Bool(bool),
    Number(serde_json::Number),
    Text(&'a String),
    Array(&'a Vec<serde_json::Value>),
    Object(Vec<(&'a String, &'a serde_json::Value)>),
}

/// The document that the parts of a value make.
spec fn parts_model(parts: Parts) -> JsonValue {
    match parts {
        Parts::Null => JsonValue::Null,
        Parts::Bool(b) => JsonValue::Bool(b),
        Parts::Number(n) => JsonValue::Number(n),
        Parts::Text(text) => JsonValue::Text(text@),
        Parts::Array(items) => JsonValue::Array(
            Seq::new(items@.len(), |i: int| value_model(items@[i])),
        ),
        Parts::Object(members) => JsonValue::Object(
            Seq::new(members@.len(), |i: int| (members@[i].0@, value_model(*members@[i].1))),
        ),
    }
}

/// Takes a `serde_json::Value` apart, one arm for each variant; the members of
/// an object are handed out in the order of `Map::iter`. The contract says
/// that the parts make the document that the value holds.
#[verifier::external_body]
fn parts_of<'a>(value: &'a serde_json::Value) -> (parts: Parts<'a>)
    ensures
        parts_model(parts) == value_model(*value),
{
    match value {
        serde_json::Value::Null => Parts::Null,
        serde_json::Value::Bool(b) => Parts::Bool(*b),
        serde_json::Value::Number(n) => Parts::Number(n.clone()),
        serde_json::Value::String(text) => Parts::Text(text),
        serde_json::Value::Array(items) => Parts::Array(items),
        serde_json::Value::Object(map) => Parts::Object(map.iter().collect()),
    }
}

/// What a `serde_json::Value` is to be made of.
enum Pieces {
    Null,
    Bool(bool),
    Number(serde_json::Number),
    Text(String),
    Array(Vec<serde_json::Value>),
    Object(Vec<(String, serde_json::Value)>),
}

/// The document that the pieces of a value make.
spec fn pieces_model(pieces: Pieces) -> JsonValue {
    match pieces {
        Pieces::Null => JsonValue::Null,
        Pieces::Bool(b) => JsonValue::Bool(b),
        Pieces::Number(n) => JsonValue::Number(n),
        Pieces::Text(text) => JsonValue::Text(text@),
        Pieces::Array(items) => JsonValue::Array(
            Seq::new(items@.len(), |i: int| value_model(items@[i])),
        ),
        Pieces::Object(members) => JsonValue::Object(
            Seq::new(members@.len(), |i: int| (members@[i].0@, value_model(members@[i].1))),
        ),
    }
}

/// Whether the members of an object that is to be made have different names.
spec fn names_once(pieces: Pieces) -> bool {
    pieces matches Pieces::Object(members) ==> forall|i: int, j: int|
        0 <= i < j < members@.len() ==> (#[trigger] members@[i]).0@ != (#[trigger] members@[j]).0@
}

/// Puts a `serde_json::Value` together, one arm for each variant; the members
/// of an object are inserted into its map in their order. The contract says
/// that the value holds the document that the pieces make; it rests on the
/// map keeping the order of insertion, and asks that no name is inserted
/// twice.
#[verifier::external_body]
fn value_of(pieces: Pieces) -> (value: serde_json::Value)
    requires
        names_once(pieces),
    ensures
        value_model(value) == pieces_model(pieces),
{
    match pieces {
        Pieces::Null => serde_json::Value::Null,
        Pieces::Bool(b) => serde_json::Value::Bool(b),
        Pieces::Number(n) => serde_json::Value::Number(n),
        Pieces::Text(text) => serde_json::Value::String(text),
        Pieces::Array(items) => serde_json::Value::Array(items),
        Pieces::Object(members) => serde_json::Value::Object(members.into_iter().collect()),
    }
}

/// Calls `serde_json::to_string_pretty` on a `Value`. The contract names what
/// was written `pretty`; it claims nothing else of it.
#[verifier::external_body]
fn text_of_value(value: &serde_json::Value) -> (r: Result<String, serde_json::Error>)
    ensures
        r matches Ok(text) ==> pretty(value_model(*value)) == Some(text@),
        r is Err ==> pretty(value_model(*value)) is None,
{
    serde_json::to_string_pretty(value)
}

/// The document that a value holds, as a [`Json`].
fn json_of_value(value: &serde_json::Value) -> (json: Json)
    ensures
        json@ == value_model(*value),
    decreases value_model(*value),
{
    match parts_of(value) {
        Parts::Null => Json::Null,
        Parts::Bool(b) => Json::Bool(b),
        Parts::Number(n) => Json::Number(n),
        Parts::Text(text) => Json::Text(text.clone()),
        Parts::Array(items) => {
            let ghost models = value_model(*value)->Array_0;
            let mut out: Vec<Json> = Vec::new();
            let mut i: usize = 0;
            while i < items.len()
                invariant
                    i <= items@.len(),
                    out@.len() == i,
                    value_model(*value) == JsonValue::Array(models),
                    models.len() == items@.len(),
                    forall|j: int| 0 <= j < items@.len() ==> value_model(items@[j]) == models[j],
                    forall|j: int| 0 <= j < i ==> (#[trigger] out@[j])@ == models[j],
                decreases items@.len() - i,
            {
                assert(value_model(items@[i as int]) == models[i as int]);
                let ghost whole = value_model(*value);
                assert(decreases_to!(whole => whole->Array_0));
                assert(decreases_to!(whole->Array_0 => whole->Array_0[i as int]));
                out.push(json_of_value(&items[i]));
                i += 1;
            }
            assert(out.deep_view() =~= models);
            Json::Array(out)
        },
        Parts::Object(members) => {
            let ghost models = value_model(*value)->Object_0;
            let mut out: Vec<(String, Json)> = Vec::new();
            let mut i: usize = 0;
            while i < members.len()
                invariant
                    i <= members@.len(),
                    out@.len() == i,
                    value_model(*value) == JsonValue::Object(models),
                    models.len() == members@.len(),
                    forall|j: int|
                        0 <= j < members@.len() ==> (members@[j].0@, value_model(*members@[j].1))
                            == models[j],
                    forall|j: int| 0 <= j < i ==> (#[trigger] out@[j]).deep_view() == models[j],
                decreases members@.len() - i,
            {
                assert((members@[i as int].0@, value_model(*members@[i as int].1))
                    == models[i as int]);
                let ghost whole = value_model(*value);
                assert(decreases_to!(whole => whole->Object_0));
                assert(decreases_to!(whole->Object_0 => whole->Object_0[i as int]));
                assert(decreases_to!(whole->Object_0[i as int] => whole->Object_0[i as int].1));
                out.push((members[i].0.clone(), json_of_value(members[i].1)));
                i += 1;
            }
            assert(out.deep_view() =~= models);
            Json::Object(out)
        },
    }
}

/// A value that holds the document of a [`Json`].
fn value_of_json(json: &Json) -> (value: serde_json::Value)
    requires
        well_keyed(json@),
    ensures
        value_model(value) == json@,
    decreases json,
{
    match json {
        Json::Null => value_of(Pieces::Null),
        Json::Bool(b) => value_of(Pieces::Bool(*b)),
        Json::Number(n) => value_of(Pieces::Number(n.clone())),
        Json::Text(text) => value_of(Pieces::Text(text.clone())),
        Json::Array(items) => {
            let mut out: Vec<serde_json::Value> = Vec::new();
            let mut i: usize = 0;
            while i < items.len()
                invariant
                    i <= items@.len(),
                    out@.len() == i,
                    json is Array,
                    json->Array_0 == *items,
                    json@ == JsonValue::Array(items.deep_view()),
                    well_keyed(json@),
                    forall|j: int| 0 <= j < i ==> value_model(#[trigger] out@[j]) == items@[j]@,
                decreases items@.len() - i,
            {
                assert(well_keyed(json@->Array_0[i as int]));
                out.push(value_of_json(&items[i]));
                i += 1;
            }
            assert(pieces_model(Pieces::Array(out))->Array_0 =~= items.deep_view());
            value_of(Pieces::Array(out))
        },
        Json::Object(members) => {
            let mut out: Vec<(String, serde_json::Value)> = Vec::new();
            let mut i: usize = 0;
            while i < members.len()
                invariant
                    i <= members@.len(),
                    out@.len() == i,
                    json is Object,
                    json->Object_0 == *members,
                    json@ == JsonValue::Object(members.deep_view()),
                    well_keyed(json@),
                    forall|j: int|
                        0 <= j < i ==> (#[trigger] out@[j]).0@ == members@[j].0@ && value_model(
                            out@[j].1,
                        ) == members@[j].1@,
                decreases members@.len() - i,
            {
                assert(well_keyed(json@->Object_0[i as int].1));
                out.push((members[i].0.clone(), value_of_json(&members[i].1)));
                i += 1;
            }
            assert(pieces_model(Pieces::Object(out))->Object_0 =~= members.deep_view());
            assert forall|a: int, b: int| 0 <= a < b < out@.len() implies (#[trigger] out@[a]).0@ != (
            #[trigger] out@[b]).0@ by {
                assert(json@->Object_0[a].0 != json@->Object_0[b].0);
            }
            value_of(Pieces::Object(out))
        },
    }
}

impl Json {
    /// Reads a document from JSON text; `None` where the text is not JSON.
    pub fn from_text(text: &str) -> (r: Option<Json>)
        ensures
            match parsed(text@) {
                Some(document) => r matches Some(json) && json@ == document,
                None => r is None,
            },
    {
        match value_from_text(text) {
            Ok(value) => Some(json_of_value(&value)),
            Err(_) => None,
        }
    }

    /// Writes the document as indented JSON text; `None` where it cannot be written.
    pub(crate) fn to_pretty_text(&self) -> (r: Option<String>)
        requires
            well_keyed(self@),
        ensures
            match pretty(self@) {
                Some(text) => r matches Some(s) && s@ == text,
                None => r is None,
            },
    {
        let value = value_of_json(self);
        match text_of_value(&value) {
            Ok(text) => Some(text),
            Err(_) => None,
        }
    }
}

} // verus!
