//! A map from names to values that keeps its entries in the order of their names.

use crate::text::{
    lemma_text_before_connected, lemma_text_before_irreflexive, lemma_text_before_transitive,
    precedes, same_text, text_before,
};
use vstd::prelude::*;

verus! {

/// The index of the first entry named `key`, or the length where there is none.
pub open spec fn first_at<T>(s: Seq<(Seq<char>, T)>, key: Seq<char>) -> int
    decreases s.len(),
{
    if s.len() == 0 || s[0].0 == key {
        0
    } else {
        1 + first_at(s.drop_first(), key)
    }
}

/// Whether some entry is named `key`.
pub open spec fn has_key<T>(s: Seq<(Seq<char>, T)>, key: Seq<char>) -> bool {
    first_at(s, key) < s.len()
}

/// The value of the first entry named `key`.
pub open spec fn lookup<T>(s: Seq<(Seq<char>, T)>, key: Seq<char>) -> Option<T> {
    if has_key(s, key) {
        Some(s[first_at(s, key)].1)
    } else {
        None
    }
}

/// `first_at` is the least index that holds the key.
pub proof fn lemma_first_at<T>(s: Seq<(Seq<char>, T)>, key: Seq<char>)
    ensures
        0 <= first_at(s, key) <= s.len(),
        forall|j: int| 0 <= j < first_at(s, key) ==> (#[trigger] s[j]).0 != key,
        first_at(s, key) < s.len() ==> s[first_at(s, key)].0 == key,
    decreases s.len(),
{
    if s.len() != 0 && s[0].0 != key {
        let rest = s.drop_first();
        lemma_first_at(rest, key);
        assert forall|j: int| 0 <= j < first_at(s, key) implies (#[trigger] s[j]).0 != key by {
            if j > 0 {
                assert(s[j] == rest[j - 1]);
            }
        }
    }
}

/// An index that holds the key, with none before it, is `first_at`.
pub proof fn lemma_first_at_is<T>(s: Seq<(Seq<char>, T)>, key: Seq<char>, i: int)
    requires
        0 <= i <= s.len(),
        forall|j: int| 0 <= j < i ==> (#[trigger] s[j]).0 != key,
        i < s.len() ==> s[i].0 == key,
    ensures
        first_at(s, key) == i,
{
    lemma_first_at(s, key);
    let f = first_at(s, key);
    if f < i {
        assert(s[f].0 != key);
    }
}

/// Where a name is first found once an entry is added at the end.
pub proof fn lemma_first_at_push<T>(s: Seq<(Seq<char>, T)>, entry: (Seq<char>, T), key: Seq<char>)
    ensures
        first_at(s.push(entry), key) == if first_at(s, key) < s.len() {
            first_at(s, key)
        } else if entry.0 == key {
            s.len() as int
        } else {
            s.len() as int + 1
        },
{
    lemma_first_at(s, key);
    let out = s.push(entry);
    let f = first_at(s, key);
    if f < s.len() {
        assert forall|j: int| 0 <= j < f implies (#[trigger] out[j]).0 != key by {
            assert(out[j] == s[j]);
        }
        assert(out[f] == s[f]);
        lemma_first_at_is(out, key, f);
    } else {
        assert forall|j: int| 0 <= j < s.len() implies (#[trigger] out[j]).0 != key by {
            assert(out[j] == s[j]);
        }
        if entry.0 == key {
            lemma_first_at_is(out, key, s.len() as int);
        } else {
            lemma_first_at_is(out, key, s.len() as int + 1);
        }
    }
}

/// What is found under a name once an entry is added at the end.
pub proof fn lemma_lookup_push<T>(s: Seq<(Seq<char>, T)>, entry: (Seq<char>, T), key: Seq<char>)
    ensures
        lookup(s.push(entry), key) == if has_key(s, key) {
            lookup(s, key)
        } else if entry.0 == key {
            Some(entry.1)
        } else {
            None
        },
{
    lemma_first_at_push(s, entry, key);
    lemma_first_at(s, key);
}

/// Entries with the same names at the same places hold each name first at the
/// same place.
pub proof fn lemma_first_at_same_names<A, B>(
    a: Seq<(Seq<char>, A)>,
    b: Seq<(Seq<char>, B)>,
    key: Seq<char>,
)
    requires
        a.len() == b.len(),
        forall|i: int| 0 <= i < a.len() ==> (#[trigger] a[i]).0 == b[i].0,
    ensures
        first_at(a, key) == first_at(b, key),
{
    lemma_first_at(a, key);
    let f = first_at(a, key);
    assert forall|j: int| 0 <= j < f implies (#[trigger] b[j]).0 != key by {
        assert(a[j].0 != key);
    }
    if f < a.len() {
        assert(a[f].0 == b[f].0);
    }
    lemma_first_at_is(b, key, f);
}

/// Whether the names ascend strictly from each entry to the next.
pub open spec fn keys_ascend<T>(s: Seq<(Seq<char>, T)>) -> bool {
    forall|i: int, j: int| 0 <= i < j < s.len() ==> text_before(#[trigger] s[i].0, #[trigger] s[j].0)
}

/// The number of leading entries whose names come before `key`.
pub open spec fn rank<T>(s: Seq<(Seq<char>, T)>, key: Seq<char>) -> int
    decreases s.len(),
{
    if s.len() == 0 || !text_before(s[0].0, key) {
        0
    } else {
        1 + rank(s.drop_first(), key)
    }
}

/// The table with `key` bound to `value`: in place of the old binding where there
/// is one, else at the place that the order of names gives it.
pub open spec fn inserted<T>(s: Seq<(Seq<char>, T)>, key: Seq<char>, value: T) -> Seq<(Seq<char>, T)> {
    let at = rank(s, key);
    if at < s.len() && s[at].0 == key {
        s.update(at, (key, value))
    } else {
        s.insert(at, (key, value))
    }
}

/// `rank` is the least index whose name does not come before `key`.
pub proof fn lemma_rank_is<T>(s: Seq<(Seq<char>, T)>, key: Seq<char>, i: int)
    requires
        0 <= i <= s.len(),
        forall|j: int| 0 <= j < i ==> text_before((#[trigger] s[j]).0, key),
        i < s.len() ==> !text_before(s[i].0, key),
    ensures
        rank(s, key) == i,
    decreases s.len(),
{
    if i > 0 {
        assert(text_before(s[0].0, key));
        let rest = s.drop_first();
        assert forall|j: int| 0 <= j < i - 1 implies text_before((#[trigger] rest[j]).0, key) by {
            assert(rest[j] == s[j + 1]);
        }
        lemma_rank_is(rest, key, i - 1);
    }
}

/// Binding a name in an ascending table leaves it ascending.
pub proof fn lemma_inserted_ascends<T>(s: Seq<(Seq<char>, T)>, key: Seq<char>, value: T, at: int)
    requires
        keys_ascend(s),
        0 <= at <= s.len(),
        forall|j: int| 0 <= j < at ==> text_before((#[trigger] s[j]).0, key),
        at < s.len() ==> !text_before(s[at].0, key),
    ensures
        rank(s, key) == at,
        keys_ascend(inserted(s, key, value)),
{
    lemma_rank_is(s, key, at);
    let out = inserted(s, key, value);
    if at < s.len() && s[at].0 == key {
        assert forall|i: int, j: int| 0 <= i < j < out.len() implies text_before(
            #[trigger] out[i].0,
            #[trigger] out[j].0,
        ) by {
            assert(out[i].0 == s[i].0 && out[j].0 == s[j].0);
        }
    } else {
        assert forall|i: int, j: int| 0 <= i < j < out.len() implies text_before(
            #[trigger] out[i].0,
            #[trigger] out[j].0,
        ) by {
            if j < at {
                assert(out[i] == s[i] && out[j] == s[j]);
            } else if j == at {
                assert(out[i] == s[i]);
            } else if i == at {
                assert(out[j] == s[j - 1]);
                if !text_before(key, s[at].0) {
                    lemma_text_before_connected(key, s[at].0);
                }
                if j - 1 > at {
                    assert(text_before(s[at].0, s[j - 1].0));
                    lemma_text_before_transitive(key, s[at].0, s[j - 1].0);
                }
            } else if i < at {
                assert(out[i] == s[i] && out[j] == s[j - 1]);
            } else {
                assert(out[i] == s[i - 1] && out[j] == s[j - 1]);
            }
        }
    }
}

/// `rank` lies within the table, after all names that come before `key` and at
/// the first that does not.
pub proof fn lemma_rank<T>(s: Seq<(Seq<char>, T)>, key: Seq<char>)
    ensures
        0 <= rank(s, key) <= s.len(),
        forall|j: int| 0 <= j < rank(s, key) ==> text_before((#[trigger] s[j]).0, key),
        rank(s, key) < s.len() ==> !text_before(s[rank(s, key)].0, key),
    decreases s.len(),
{
    if s.len() != 0 && text_before(s[0].0, key) {
        let rest = s.drop_first();
        lemma_rank(rest, key);
        assert forall|j: int| 0 <= j < rank(s, key) implies text_before((#[trigger] s[j]).0, key) by {
            if j > 0 {
                assert(s[j] == rest[j - 1]);
            }
        }
    }
}

/// What a table holds under each name once the value of one entry is replaced.
pub proof fn lemma_replaced_lookup<T>(
    s: Seq<(Seq<char>, T)>,
    at: int,
    value: T,
    other: Seq<char>,
)
    requires
        0 <= at < s.len(),
        first_at(s, s[at].0) == at,
    ensures
        lookup(s.update(at, (s[at].0, value)), other) == if other == s[at].0 {
            Some(value)
        } else {
            lookup(s, other)
        },
{
    let out = s.update(at, (s[at].0, value));
    assert forall|i: int| 0 <= i < s.len() implies (#[trigger] s[i]).0 == out[i].0 by {}
    lemma_first_at_same_names(s, out, other);
    lemma_first_at(s, other);
}

/// What a table holds under each name once an entry of a new name is put in.
pub proof fn lemma_placed_lookup<T>(
    s: Seq<(Seq<char>, T)>,
    at: int,
    key: Seq<char>,
    value: T,
    other: Seq<char>,
)
    requires
        0 <= at <= s.len(),
        !has_key(s, key),
    ensures
        lookup(s.insert(at, (key, value)), other) == if other == key {
            Some(value)
        } else {
            lookup(s, other)
        },
{
    let out = s.insert(at, (key, value));
    lemma_first_at(s, key);
    lemma_first_at(s, other);
    let f = first_at(s, other);
    if other == key {
        assert forall|j: int| 0 <= j < at implies (#[trigger] out[j]).0 != key by {
            assert(out[j] == s[j]);
        }
        lemma_first_at_is(out, key, at);
    } else if f < at {
        assert forall|j: int| 0 <= j < f implies (#[trigger] out[j]).0 != other by {
            assert(out[j] == s[j]);
        }
        assert(out[f] == s[f]);
        lemma_first_at_is(out, other, f);
    } else {
        assert forall|j: int| 0 <= j < f + 1 implies (#[trigger] out[j]).0 != other by {
            if j < at {
                assert(out[j] == s[j]);
            } else if j > at {
                assert(out[j] == s[j - 1]);
            }
        }
        if f < s.len() {
            assert(out[f + 1] == s[f]);
        }
        lemma_first_at_is(out, other, f + 1);
    }
}

/// Binding a name in an ascending table leaves the table ascending, binds the
/// name to the value, and leaves the other names bound as they were.
pub proof fn lemma_inserted<T>(s: Seq<(Seq<char>, T)>, key: Seq<char>, value: T)
    requires
        keys_ascend(s),
    ensures
        keys_ascend(inserted(s, key, value)),
        forall|other: Seq<char>| #[trigger]
            lookup(inserted(s, key, value), other) == if other == key {
                Some(value)
            } else {
                lookup(s, other)
            },
{
    lemma_rank(s, key);
    let at = rank(s, key);
    lemma_inserted_ascends(s, key, value, at);
    lemma_text_before_irreflexive(key);
    assert forall|j: int| 0 <= j < at implies (#[trigger] s[j]).0 != key by {
        assert(text_before(s[j].0, key));
    }
    if at < s.len() && s[at].0 == key {
        lemma_first_at_is(s, key, at);
        assert forall|other: Seq<char>| #[trigger] lookup(inserted(s, key, value), other) == if other
            == key {
            Some(value)
        } else {
            lookup(s, other)
        } by {
            lemma_replaced_lookup(s, at, value, other);
        }
    } else {
        assert forall|j: int| 0 <= j < s.len() implies (#[trigger] s[j]).0 != key by {
            if j >= at {
                if !text_before(key, s[at].0) {
                    lemma_text_before_connected(key, s[at].0);
                }
                if j > at {
                    assert(text_before(s[at].0, s[j].0));
                    lemma_text_before_transitive(key, s[at].0, s[j].0);
                }
                assert(text_before(key, s[j].0));
            }
        }
        lemma_first_at_is(s, key, s.len() as int);
        assert forall|other: Seq<char>| #[trigger] lookup(inserted(s, key, value), other) == if other
            == key {
            Some(value)
        } else {
            lookup(s, other)
        } by {
            lemma_placed_lookup(s, at, key, value, other);
        }
    }
}

/// In an ascending table no name occurs twice.
pub proof fn lemma_ascending_keys_differ<T>(s: Seq<(Seq<char>, T)>, i: int, j: int)
    requires
        keys_ascend(s),
        0 <= i < s.len(),
        0 <= j < s.len(),
        i != j,
    ensures
        s[i].0 != s[j].0,
{
    lemma_text_before_irreflexive(s[i].0);
    if i < j {
        assert(text_before(s[i].0, s[j].0));
    } else {
        assert(text_before(s[j].0, s[i].0));
    }
}

/// A map from names to values, held in the order of the names.
#[derive(Debug, PartialEq, Eq)]
pub struct Table<V: DeepView> {
    entries: Vec<(String, V)>,
}

/// The names and the models of the values, entry by entry.
pub open spec fn model_of<V: DeepView>(entries: Seq<(String, V)>) -> Seq<(Seq<char>, V::V)> {
    Seq::new(entries.len(), |i: int| (entries[i].0@, entries[i].1.deep_view()))
}

impl<V: DeepView> View for Table<V> {
    type V = Seq<(Seq<char>, V::V)>;

    closed spec fn view(&self) -> Self::V {
        model_of(self.entries@)
    }
}

impl<V: DeepView> DeepView for Table<V> {
    type V = Seq<(Seq<char>, V::V)>;

    open spec fn deep_view(&self) -> Self::V {
        self@
    }
}

impl<V: DeepView> Table<V> {
    /// The value that the entry at `index` holds.
    pub closed spec fn held(&self, index: int) -> V {
        self.entries@[index].1
    }

    /// The model of the table holds the models of the values that it holds.
    pub broadcast proof fn lemma_held(&self, index: int)
        requires
            0 <= index < self@.len(),
        ensures
            #[trigger] self.held(index).deep_view() == self@[index].1,
    {
    }

    /// Every table is in ascending order of its names.
    #[verifier::type_invariant]
    pub open spec fn ascending(self) -> bool {
        keys_ascend(self@)
    }

    /// The table without entries.
    pub fn new() -> (t: Self)
        ensures
            t@ == Seq::<(Seq<char>, V::V)>::empty(),
    {
        let entries: Vec<(String, V)> = Vec::new();
        assert(model_of(entries@) =~= Seq::<(Seq<char>, V::V)>::empty());
        Table { entries }
    }

    /// The number of entries.
    pub fn len(&self) -> (n: usize)
        ensures
            n == self@.len(),
    {
        self.entries.len()
    }

    /// Whether the table has no entries.
    pub fn is_empty(&self) -> (r: bool)
        ensures
            r == (self@.len() == 0),
    {
        self.entries.len() == 0
    }

    /// The name of the entry at `index`.
    pub fn key_at(&self, index: usize) -> (key: &String)
        requires
            index < self@.len(),
        ensures
            key@ == self@[index as int].0,
    {
        &self.entries[index].0
    }

    /// The value of the entry at `index`.
    pub fn value_at(&self, index: usize) -> (value: &V)
        requires
            index < self@.len(),
        ensures
            *value == self.held(index as int),
            value.deep_view() == self@[index as int].1,
    {
        &self.entries[index].1
    }

    /// The value bound to `key`.
    pub fn get(&self, key: &str) -> (found: Option<&V>)
        ensures
            match lookup(self@, key@) {
                Some(value) => found matches Some(v) && v.deep_view() == value,
                None => found is None,
            },
    {
        let mut i: usize = 0;
        while i < self.entries.len()
            invariant
                i <= self.entries@.len(),
                forall|j: int| 0 <= j < i ==> (#[trigger] self.entries@[j]).0@ != key@,
            decreases self.entries@.len() - i,
        {
            if same_text(self.entries[i].0.as_str(), key) {
                proof {
                    assert forall|j: int| 0 <= j < i implies (#[trigger] self@[j]).0 != key@ by {
                        assert(self.entries@[j].0@ != key@);
                    }
                    lemma_first_at_is(self@, key@, i as int);
                }
                return Some(&self.entries[i].1);
            }
            i += 1;
        }
        proof {
            assert forall|j: int| 0 <= j < i implies (#[trigger] self@[j]).0 != key@ by {
                assert(self.entries@[j].0@ != key@);
            }
            lemma_first_at_is(self@, key@, i as int);
        }
        None
    }

    /// Whether `key` is bound.
    pub fn contains_key(&self, key: &str) -> (r: bool)
        ensures
            r == has_key(self@, key@),
    {
        self.get(key).is_some()
    }

    /// Binds `key` to `value`, in place of what it was bound to.
    pub fn insert(&mut self, key: String, value: V)
        ensures
            final(self)@ == inserted(old(self)@, key@, value.deep_view()),
    {
        proof {
            use_type_invariant(&*self);
        }
        let ghost before = self@;
        let ghost k = key@;
        let ghost v = value.deep_view();
        let mut taken = Table::new();
        core::mem::swap(self, &mut taken);
        let Table { entries: mut entries } = taken;
        let mut at: usize = 0;
        while at < entries.len() && precedes(entries[at].0.as_str(), key.as_str())
            invariant
                at <= entries@.len(),
                forall|j: int| 0 <= j < at ==> text_before((#[trigger] entries@[j]).0@, key@),
            decreases entries@.len() - at,
        {
            at += 1;
        }
        proof {
            assert forall|j: int| 0 <= j < at implies text_before((#[trigger] before[j]).0, k) by {
                assert(text_before(entries@[j].0@, k));
            }
            lemma_inserted_ascends(before, k, v, at as int);
        }
        if at < entries.len() && entries[at].0 == key {
            entries.set(at, (key, value));
        } else {
            entries.insert(at, (key, value));
        }
        assert(model_of(entries@) =~= inserted(before, k, v));
        *self = Table { entries };
    }
}

impl<V: DeepView + Clone> Clone for Table<V> {
    /// A table of the same names, each bound to a clone of its value.
    fn clone(&self) -> (copy: Self)
        ensures
            copy@.len() == self@.len(),
            forall|i: int| 0 <= i < self@.len() ==> (#[trigger] copy@[i]).0 == self@[i].0,
            forall|i: int|
                0 <= i < self@.len() ==> cloned::<V>(self.held(i), #[trigger] copy.held(i)),
    {
        proof {
            use_type_invariant(self);
        }
        let mut entries: Vec<(String, V)> = Vec::new();
        let mut i: usize = 0;
        while i < self.entries.len()
            invariant
                i <= self.entries@.len(),
                entries@.len() == i,
                forall|j: int| 0 <= j < i ==> (#[trigger] entries@[j]).0@ == self.entries@[j].0@,
                forall|j: int|
                    0 <= j < i ==> cloned::<V>(self.entries@[j].1, (#[trigger] entries@[j]).1),
            decreases self.entries@.len() - i,
        {
            entries.push((self.entries[i].0.clone(), self.entries[i].1.clone()));
            i += 1;
        }
        proof {
            let a = model_of(entries@);
            let b = self@;
            assert forall|i: int, j: int| 0 <= i < j < a.len() implies text_before(
                #[trigger] a[i].0,
                #[trigger] a[j].0,
            ) by {
                assert(entries@[i].0@ == self.entries@[i].0@);
                assert(entries@[j].0@ == self.entries@[j].0@);
                assert(text_before(b[i].0, b[j].0));
            }
        }
        let copy = Table { entries };
        assert forall|i: int| 0 <= i < self@.len() implies cloned::<V>(
            self.held(i),
            #[trigger] copy.held(i),
        ) by {
            assert(cloned::<V>(self.entries@[i].1, copy.entries@[i].1));
        }
        copy
    }
}

} // verus!
