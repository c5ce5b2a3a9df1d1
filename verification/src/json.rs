//! An untyped JSON document tree and its mathematical model.

use crate::table::{first_at, lemma_first_at_is};
use crate::text::same_text;
use vstd::prelude::*;

verus! {

/// The number type of `serde_json`, carried through unread.
#[verifier::external_type_specification]
#[verifier::external_body]
pub struct ExNumber(serde_json::Number);

/// The derived `clone` of `serde_json::Number`. The contract says that the
/// copy is the same number.
pub assume_specification[ <serde_json::Number as Clone>::clone ](n: &serde_json::Number) -> (r:
    serde_json::Number)
    ensures
        r == *n,
;

/// The mathematical model of a JSON document.
pub enum JsonValue {
    /// `null`.
    Null,
    /// `true` or `false`.
    Bool(bool),
    /// A number. No configuration holds one: it is kept as it was read.
    Number(serde_json::Number),
    /// A string.
    Text(Seq<char>),
    /// An array of documents.
    Array(Seq<JsonValue>),
    /// An object: its members by name, in the order of the document.
    Object(Seq<(Seq<char>, JsonValue)>),
}

/// A JSON document.
#[derive(Debug, PartialEq)]
pub enum Json {
    /// `null`.
    Null,
    /// `true` or `false`.
    Bool(bool),
    /// A number. No configuration holds one: it is kept as it was read.
    Number(serde_json::Number),
    /// A string.
    Text(String),
    /// An array of documents.
    Array(Vec<Json>),
    /// An object: its members by name, in the order of the document.
    Object(Vec<(String, Json)>),
}

/// The members of an object: names and values, in the order of the document.
pub type Members = Seq<(Seq<char>, JsonValue)>;

/// The document that a [`Json`] holds.
pub open spec fn model(json: Json) -> JsonValue
    decreases json,
{
    match json {
        Json::Null => JsonValue::Null,
        Json::Bool(b) => JsonValue::Bool(b),
        Json::Number(n) => JsonValue::Number(n),
        Json::Text(s) => JsonValue::Text(s@),
        Json::Array(items) => JsonValue::Array(
            Seq::new(
                items@.len(),
                |i: int|
                    if 0 <= i < items@.len() {
                        model(items@[i])
                    } else {
                        JsonValue::Null
                    },
            ),
        ),
        Json::Object(members) => JsonValue::Object(
            Seq::new(
                members@.len(),
                |i: int|
                    if 0 <= i < members@.len() {
                        (members@[i].0@, model(members@[i].1))
                    } else {
                        (Seq::empty(), JsonValue::Null)
                    },
            ),
        ),
    }
}

impl DeepView for Json {
    type V = JsonValue;

    open spec fn deep_view(&self) -> JsonValue {
        model(*self)
    }
}

impl View for Json {
    type V = JsonValue;

    open spec fn view(&self) -> JsonValue {
        model(*self)
    }
}

/// The model of an array is the sequence of the models of its items.
pub broadcast proof fn lemma_array_model(items: Vec<Json>)
    ensures
        #[trigger] model(Json::Array(items)) == JsonValue::Array(items.deep_view()),
{
    assert(model(Json::Array(items))->Array_0 =~= items.deep_view());
}

/// The model of an object is the sequence of its members' names and models.
pub broadcast proof fn lemma_object_model(members: Vec<(String, Json)>)
    ensures
        #[trigger] model(Json::Object(members)) == JsonValue::Object(members.deep_view()),
{
    assert(model(Json::Object(members))->Object_0 =~= members.deep_view());
}

/// The index of the first member named `key`, or the number of members where
/// there is none.
pub fn position(members: &Vec<(String, Json)>, key: &str) -> (at: usize)
    ensures
        at == first_at(members.deep_view(), key@),
        at <= members@.len(),
        at < members@.len() ==> members@[at as int].0@ == key@,
{
    let mut at: usize = 0;
    while at < members.len()
        invariant
            at <= members@.len(),
            forall|j: int| 0 <= j < at ==> (#[trigger] members.deep_view()[j]).0 != key@,
        decreases members@.len() - at,
    {
        if same_text(members[at].0.as_str(), key) {
            proof {
                lemma_first_at_is(members.deep_view(), key@, at as int);
            }
            return at;
        }
        at += 1;
    }
    proof {
        lemma_first_at_is(members.deep_view(), key@, at as int);
    }
    at
}

/// A copy of the members of an object.
pub fn copy_members(members: &Vec<(String, Json)>) -> (copy: Vec<(String, Json)>)
    ensures
        copy.deep_view() == members.deep_view(),
{
    let mut copy: Vec<(String, Json)> = Vec::new();
    let mut i: usize = 0;
    while i < members.len()
        invariant
            i <= members@.len(),
            copy@.len() == i,
            forall|j: int| 0 <= j < i ==> copy.deep_view()[j] == members.deep_view()[j],
        decreases members@.len() - i,
    {
        copy.push((members[i].0.clone(), members[i].1.clone()));
        i += 1;
    }
    assert(copy.deep_view() =~= members.deep_view());
    copy
}

impl Clone for Json {
    fn clone(&self) -> (r: Json)
        ensures
            r@ == self@,
        decreases self,
    {
        match self {
            Json::Null => Json::Null,
            Json::Bool(b) => Json::Bool(*b),
            Json::Number(n) => Json::Number(n.clone()),
            Json::Text(s) => Json::Text(s.clone()),
            Json::Array(items) => {
                let mut out: Vec<Json> = Vec::new();
                let mut i: usize = 0;
                while i < items.len()
                    invariant
                        i <= items.len(),
                        out.len() == i,
                        forall|j: int| 0 <= j < i ==> out@[j]@ == items@[j]@,
                        self is Array,
                        self->Array_0 == *items,
                    decreases items.len() - i,
                {
                    out.push(items[i].clone());
                    i += 1;
                }
                assert(out.deep_view() =~= items.deep_view());
                proof {
                    lemma_array_model(out);
                    lemma_array_model(*items);
                }
                Json::Array(out)
            },
            Json::Object(members) => {
                let mut out: Vec<(String, Json)> = Vec::new();
                let mut i: usize = 0;
                while i < members.len()
                    invariant
                        i <= members.len(),
                        out.len() == i,
                        forall|j: int|
                            0 <= j < i ==> out@[j].0@ == members@[j].0@ && out@[j].1@
                                == members@[j].1@,
                        self is Object,
                        self->Object_0 == *members,
                    decreases members.len() - i,
                {
                    out.push((members[i].0.clone(), members[i].1.clone()));
                    i += 1;
                }
                assert(out.deep_view() =~= members.deep_view());
                proof {
                    lemma_object_model(out);
                    lemma_object_model(*members);
                }
                Json::Object(out)
            },
        }
    }
}

} // verus!
