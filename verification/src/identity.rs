//! The identity of a package, and a map from identities that refuses to bind
//! one twice.

use crate::text::{
    lemma_text_before_connected, lemma_text_before_irreflexive, lemma_text_before_transitive,
    precedes, same_text, text_before,
};
use vstd::prelude::*;

verus! {

/// The identity of a package: its name and its version.
#[derive(Clone, Debug, PartialEq, Eq, PartialOrd, Ord, Hash)]
pub struct NameAndVersion {
    /// The name of the package.
    pub name: String,
    /// The version of the package.
    pub version: String,
}

/// The model of a [`NameAndVersion`].
pub struct Identity {
    pub name: Seq<char>,
    pub version: Seq<char>,
}

impl DeepView for NameAndVersion {
    type V = Identity;

    open spec fn deep_view(&self) -> Identity {
        Identity { name: self.name@, version: self.version@ }
    }
}

impl View for NameAndVersion {
    type V = Identity;

    open spec fn view(&self) -> Identity {
        self.deep_view()
    }
}

/// The order of identities: by name, then by version.
pub open spec fn identity_before(a: Identity, b: Identity) -> bool {
    text_before(a.name, b.name) || (a.name == b.name && text_before(a.version, b.version))
}

/// No identity comes before itself.
pub proof fn lemma_identity_before_irreflexive(a: Identity)
    ensures
        !identity_before(a, a),
{
    lemma_text_before_irreflexive(a.name);
    lemma_text_before_irreflexive(a.version);
}

/// The order of identities is transitive.
pub proof fn lemma_identity_before_transitive(a: Identity, b: Identity, c: Identity)
    requires
        identity_before(a, b),
        identity_before(b, c),
    ensures
        identity_before(a, c),
{
    if text_before(a.name, b.name) && text_before(b.name, c.name) {
        lemma_text_before_transitive(a.name, b.name, c.name);
    } else if a.name == b.name && b.name == c.name {
        lemma_text_before_transitive(a.version, b.version, c.version);
    }
}

/// Two identities of which neither comes before the other are the same.
pub proof fn lemma_identity_before_connected(a: Identity, b: Identity)
    requires
        !identity_before(a, b),
        !identity_before(b, a),
    ensures
        a == b,
{
    lemma_text_before_connected(a.name, b.name);
    lemma_text_before_connected(a.version, b.version);
}

impl NameAndVersion {
    /// The identity of the package `name` at `version`.
    pub fn new(name: String, version: String) -> (identity: Self)
        ensures
            identity@ == (Identity { name: name@, version: version@ }),
    {
        NameAndVersion { name, version }
    }

    /// Whether this identity comes strictly before `other`.
    pub fn comes_before(&self, other: &NameAndVersion) -> (r: bool)
        ensures
            r == identity_before(self@, other@),
    {
        precedes(self.name.as_str(), other.name.as_str()) || (same_text(
            self.name.as_str(),
            other.name.as_str(),
        ) && precedes(self.version.as_str(), other.version.as_str()))
    }

    /// Whether this identity is `other`.
    pub fn same_as(&self, other: &NameAndVersion) -> (r: bool)
        ensures
            r == (self@ == other@),
    {
        same_text(self.name.as_str(), other.name.as_str()) && same_text(
            self.version.as_str(),
            other.version.as_str(),
        )
    }

    /// A copy of this identity.
    pub fn duplicate(&self) -> (copy: NameAndVersion)
        ensures
            copy@ == self@,
    {
        NameAndVersion { name: self.name.clone(), version: self.version.clone() }
    }
}

/// The index of the first entry with the identity, or the length where there
/// is none.
pub open spec fn index_of<T>(s: Seq<(Identity, T)>, key: Identity) -> int
    decreases s.len(),
{
    if s.len() == 0 || s[0].0 == key {
        0
    } else {
        1 + index_of(s.drop_first(), key)
    }
}

/// Whether some entry has the identity.
pub open spec fn bound<T>(s: Seq<(Identity, T)>, key: Identity) -> bool {
    index_of(s, key) < s.len()
}

/// The value of the first entry with the identity.
pub open spec fn value_for<T>(s: Seq<(Identity, T)>, key: Identity) -> Option<T> {
    if bound(s, key) {
        Some(s[index_of(s, key)].1)
    } else {
        None
    }
}

/// `index_of` is the least index that holds the identity.
pub proof fn lemma_index_of<T>(s: Seq<(Identity, T)>, key: Identity)
    ensures
        0 <= index_of(s, key) <= s.len(),
        forall|j: int| 0 <= j < index_of(s, key) ==> (#[trigger] s[j]).0 != key,
        index_of(s, key) < s.len() ==> s[index_of(s, key)].0 == key,
    decreases s.len(),
{
    if s.len() != 0 && s[0].0 != key {
        let rest = s.drop_first();
        lemma_index_of(rest, key);
        assert forall|j: int| 0 <= j < index_of(s, key) implies (#[trigger] s[j]).0 != key by {
            if j > 0 {
                assert(s[j] == rest[j - 1]);
            }
        }
    }
}

/// An index that holds the identity, with none before it, is `index_of`.
pub proof fn lemma_index_of_is<T>(s: Seq<(Identity, T)>, key: Identity, i: int)
    requires
        0 <= i <= s.len(),
        forall|j: int| 0 <= j < i ==> (#[trigger] s[j]).0 != key,
        i < s.len() ==> s[i].0 == key,
    ensures
        index_of(s, key) == i,
{
    lemma_index_of(s, key);
    let f = index_of(s, key);
    if f < i {
        assert(s[f].0 != key);
    }
}

/// Whether the identities ascend strictly from each entry to the next.
pub open spec fn identities_ascend<T>(s: Seq<(Identity, T)>) -> bool {
    forall|i: int, j: int|
        0 <= i < j < s.len() ==> identity_before(#[trigger] s[i].0, #[trigger] s[j].0)
}

/// The number of leading entries whose identities come before `key`.
pub open spec fn place<T>(s: Seq<(Identity, T)>, key: Identity) -> int
    decreases s.len(),
{
    if s.len() == 0 || !identity_before(s[0].0, key) {
        0
    } else {
        1 + place(s.drop_first(), key)
    }
}

/// The entries with one more, at the place that the order of identities gives it.
pub open spec fn added<T>(s: Seq<(Identity, T)>, key: Identity, value: T) -> Seq<(Identity, T)> {
    s.insert(place(s, key), (key, value))
}

/// `place` is the least index whose identity does not come before `key`.
pub proof fn lemma_place_is<T>(s: Seq<(Identity, T)>, key: Identity, i: int)
    requires
        0 <= i <= s.len(),
        forall|j: int| 0 <= j < i ==> identity_before((#[trigger] s[j]).0, key),
        i < s.len() ==> !identity_before(s[i].0, key),
    ensures
        place(s, key) == i,
    decreases s.len(),
{
    if i > 0 {
        assert(identity_before(s[0].0, key));
        let rest = s.drop_first();
        assert forall|j: int| 0 <= j < i - 1 implies identity_before((#[trigger] rest[j]).0, key) by {
            assert(rest[j] == s[j + 1]);
        }
        lemma_place_is(rest, key, i - 1);
    }
}

/// `place` lies within the entries, after all that come before `key` and at
/// the first that does not.
pub proof fn lemma_place<T>(s: Seq<(Identity, T)>, key: Identity)
    ensures
        0 <= place(s, key) <= s.len(),
        forall|j: int| 0 <= j < place(s, key) ==> identity_before((#[trigger] s[j]).0, key),
        place(s, key) < s.len() ==> !identity_before(s[place(s, key)].0, key),
    decreases s.len(),
{
    if s.len() != 0 && identity_before(s[0].0, key) {
        let rest = s.drop_first();
        lemma_place(rest, key);
        assert forall|j: int| 0 <= j < place(s, key) implies identity_before(
            (#[trigger] s[j]).0,
            key,
        ) by {
            if j > 0 {
                assert(s[j] == rest[j - 1]);
            }
        }
    }
}

/// Adding an identity that is not bound leaves ascending entries ascending,
/// binds the identity, and leaves the other bindings as they were.
pub proof fn lemma_added<T>(s: Seq<(Identity, T)>, key: Identity, value: T)
    requires
        identities_ascend(s),
        !bound(s, key),
    ensures
        identities_ascend(added(s, key, value)),
        added(s, key, value).len() == s.len() + 1,
        value_for(added(s, key, value), key) == Some(value),
        forall|other: Identity|
            other != key ==> #[trigger] value_for(added(s, key, value), other) == value_for(
                s,
                other,
            ),
{
    lemma_place(s, key);
    lemma_index_of(s, key);
    let at = place(s, key);
    let out = added(s, key, value);
    assert forall|i: int, j: int| 0 <= i < j < out.len() implies identity_before(
        #[trigger] out[i].0,
        #[trigger] out[j].0,
    ) by {
        if j < at {
            assert(out[i] == s[i] && out[j] == s[j]);
        } else if j == at {
            assert(out[i] == s[i]);
        } else if i == at {
            assert(out[j] == s[j - 1]);
            assert(s[at].0 != key);
            if !identity_before(key, s[at].0) {
                lemma_identity_before_connected(key, s[at].0);
            }
            if j - 1 > at {
                assert(identity_before(s[at].0, s[j - 1].0));
                lemma_identity_before_transitive(key, s[at].0, s[j - 1].0);
            }
        } else if i < at {
            assert(out[i] == s[i] && out[j] == s[j - 1]);
        } else {
            assert(out[i] == s[i - 1] && out[j] == s[j - 1]);
        }
    }
    assert forall|j: int| 0 <= j < at implies (#[trigger] out[j]).0 != key by {
        assert(out[j] == s[j]);
        assert(s[j].0 != key);
    }
    lemma_index_of_is(out, key, at);
    assert forall|other: Identity| other != key implies #[trigger] value_for(out, other)
        == value_for(s, other) by {
        lemma_index_of(s, other);
        let f = index_of(s, other);
        if f < at {
            assert forall|j: int| 0 <= j < f implies (#[trigger] out[j]).0 != other by {
                assert(out[j] == s[j]);
            }
            assert(out[f] == s[f]);
            lemma_index_of_is(out, other, f);
        } else {
            assert forall|j: int| 0 <= j < f + 1 implies (#[trigger] out[j]).0 != other by {
                if j < at {
                    assert(out[j] == s[j]);
                } else if j > at {
                    assert(out[j] == s[j - 1]);
                }
            }
            if f < s.len() {
                assert(out[f + 1] == s[f]);
            }
            lemma_index_of_is(out, other, f + 1);
        }
    }
}

/// Ascending entries that bind the same identities to the same values are the
/// same entries.
pub proof fn lemma_ascending_determined<T>(a: Seq<(Identity, T)>, b: Seq<(Identity, T)>)
    requires
        identities_ascend(a),
        identities_ascend(b),
        forall|key: Identity| #[trigger] value_for(a, key) == value_for(b, key),
    ensures
        a == b,
    decreases a.len(),
{
    if a.len() == 0 {
        if b.len() > 0 {
            assert(value_for(a, b[0].0) == value_for(b, b[0].0));
        }
        assert(a =~= b);
    } else {
        let x = a[0].0;
        assert(value_for(a, x) == value_for(b, x));
        lemma_index_of(b, x);
        let j = index_of(b, x);
        assert(b.len() > 0);
        let y = b[0].0;
        assert(value_for(a, y) == value_for(b, y));
        lemma_index_of(a, y);
        let i = index_of(a, y);
        if i > 0 && j > 0 {
            assert(identity_before(a[0].0, a[i].0));
            assert(identity_before(b[0].0, b[j].0));
            lemma_identity_before_transitive(x, y, x);
            lemma_identity_before_irreflexive(x);
        }
        assert(x == y);
        assert(a[0] == b[0]);
        let rest_a = a.drop_first();
        let rest_b = b.drop_first();
        assert forall|p: int, q: int| 0 <= p < q < rest_a.len() implies identity_before(
            #[trigger] rest_a[p].0,
            #[trigger] rest_a[q].0,
        ) by {
            assert(rest_a[p] == a[p + 1] && rest_a[q] == a[q + 1]);
        }
        assert forall|p: int, q: int| 0 <= p < q < rest_b.len() implies identity_before(
            #[trigger] rest_b[p].0,
            #[trigger] rest_b[q].0,
        ) by {
            assert(rest_b[p] == b[p + 1] && rest_b[q] == b[q + 1]);
        }
        assert forall|key: Identity| #[trigger] value_for(rest_a, key) == value_for(
            rest_b,
            key,
        ) by {
            if key == x {
                lemma_identity_before_irreflexive(x);
                lemma_index_of(rest_a, key);
                lemma_index_of(rest_b, key);
                if index_of(rest_a, key) < rest_a.len() {
                    let p = index_of(rest_a, key);
                    assert(rest_a[p] == a[p + 1]);
                    assert(identity_before(a[0].0, a[p + 1].0));
                }
                if index_of(rest_b, key) < rest_b.len() {
                    let p = index_of(rest_b, key);
                    assert(rest_b[p] == b[p + 1]);
                    assert(identity_before(b[0].0, b[p + 1].0));
                }
            } else {
                assert(value_for(a, key) == value_for(b, key));
                lemma_index_of(rest_a, key);
                lemma_index_of(rest_b, key);
                if index_of(rest_a, key) < rest_a.len() {
                    assert(rest_a[index_of(rest_a, key)] == a[index_of(rest_a, key) + 1]);
                }
                if index_of(rest_b, key) < rest_b.len() {
                    assert(rest_b[index_of(rest_b, key)] == b[index_of(rest_b, key) + 1]);
                }
            }
        }
        lemma_ascending_determined(rest_a, rest_b);
        assert(a =~= seq![a[0]] + rest_a);
        assert(b =~= seq![b[0]] + rest_b);
    }
}

/// A second binding of an identity was refused.
#[derive(Debug, PartialEq, Eq)]
pub struct DuplicateKeyError<V> {
    /// The identity that was already bound.
    pub key: NameAndVersion,
    /// The value that was not bound.
    pub value: V,
}

/// A map from identities to values, held in the order of the identities. An
/// identity is bound once: the map refuses to bind it again.
#[derive(Debug, PartialEq, Eq)]
pub struct ResultMap<V: DeepView> {
    entries: Vec<(NameAndVersion, V)>,
}

/// The identities and the models of the values, entry by entry.
pub open spec fn bindings_of<V: DeepView>(entries: Seq<(NameAndVersion, V)>) -> Seq<
    (Identity, V::V),
> {
    Seq::new(entries.len(), |i: int| (entries[i].0@, entries[i].1.deep_view()))
}

impl<V: DeepView> View for ResultMap<V> {
    type V = Seq<(Identity, V::V)>;

    closed spec fn view(&self) -> Self::V {
        bindings_of(self.entries@)
    }
}

impl<V: DeepView> DeepView for ResultMap<V> {
    type V = Seq<(Identity, V::V)>;

    open spec fn deep_view(&self) -> Self::V {
        self@
    }
}

impl<V: DeepView> ResultMap<V> {
    /// Every map is in ascending order of its identities.
    #[verifier::type_invariant]
    pub open spec fn ascending(self) -> bool {
        identities_ascend(self@)
    }

    /// The map without entries.
    pub fn new() -> (map: Self)
        ensures
            map@ == Seq::<(Identity, V::V)>::empty(),
    {
        let entries: Vec<(NameAndVersion, V)> = Vec::new();
        assert(bindings_of(entries@) =~= Seq::<(Identity, V::V)>::empty());
        ResultMap { entries }
    }

    /// The number of entries.
    pub fn len(&self) -> (n: usize)
        ensures
            n == self@.len(),
    {
        self.entries.len()
    }

    /// Whether the map has no entries.
    pub fn is_empty(&self) -> (r: bool)
        ensures
            r == (self@.len() == 0),
    {
        self.entries.len() == 0
    }

    /// The identity of the entry at `index`, in the order of identities.
    pub fn key_at(&self, index: usize) -> (key: &NameAndVersion)
        requires
            index < self@.len(),
        ensures
            key@ == self@[index as int].0,
    {
        &self.entries[index].0
    }

    /// The value of the entry at `index`, in the order of identities.
    pub fn value_at(&self, index: usize) -> (value: &V)
        requires
            index < self@.len(),
        ensures
            value.deep_view() == self@[index as int].1,
    {
        &self.entries[index].1
    }

    /// The value bound to `key`.
    pub fn get(&self, key: &NameAndVersion) -> (found: Option<&V>)
        ensures
            match value_for(self@, key@) {
                Some(value) => found matches Some(v) && v.deep_view() == value,
                None => found is None,
            },
    {
        let mut i: usize = 0;
        while i < self.entries.len()
            invariant
                i <= self.entries@.len(),
                forall|j: int| 0 <= j < i ==> (#[trigger] self.entries@[j]).0@ != key@,
            decreases self.entries@.len() - i,
        {
            if self.entries[i].0.same_as(key) {
                proof {
                    assert forall|j: int| 0 <= j < i implies (#[trigger] self@[j]).0 != key@ by {
                        assert(self.entries@[j].0@ != key@);
                    }
                    lemma_index_of_is(self@, key@, i as int);
                }
                return Some(&self.entries[i].1);
            }
            i += 1;
        }
        proof {
            assert forall|j: int| 0 <= j < i implies (#[trigger] self@[j]).0 != key@ by {
                assert(self.entries@[j].0@ != key@);
            }
            lemma_index_of_is(self@, key@, i as int);
        }
        None
    }

    /// Whether `key` is bound.
    pub fn contains_key(&self, key: &NameAndVersion) -> (r: bool)
        ensures
            r == bound(self@, key@),
    {
        self.get(key).is_some()
    }

    /// Binds `key` to `value` where `key` is not bound yet; where it is, refuses,
    /// leaves the map as it is and hands the identity and the value back.
    pub fn insert_or_fail(&mut self, key: NameAndVersion, value: V) -> (r: Result<
        (),
        DuplicateKeyError<V>,
    >)
        ensures
            bound(old(self)@, key@) ==> final(self)@ == old(self)@ && (r matches Err(error)
                && error.key == key && error.value == value),
            !bound(old(self)@, key@) ==> final(self)@ == added(
                old(self)@,
                key@,
                value.deep_view(),
            ) && r is Ok,
    {
        proof {
            use_type_invariant(&*self);
        }
        if self.contains_key(&key) {
            return Err(DuplicateKeyError { key, value });
        }
        let ghost before = self@;
        let ghost k = key@;
        let ghost v = value.deep_view();
        let mut taken = ResultMap::new();
        core::mem::swap(self, &mut taken);
        let ResultMap { entries: mut entries } = taken;
        let mut at: usize = 0;
        while at < entries.len() && entries[at].0.comes_before(&key)
            invariant
                at <= entries@.len(),
                forall|j: int| 0 <= j < at ==> identity_before((#[trigger] entries@[j]).0@, key@),
            decreases entries@.len() - at,
        {
            at += 1;
        }
        proof {
            assert forall|j: int| 0 <= j < at implies identity_before(
                (#[trigger] before[j]).0,
                k,
            ) by {
                assert(identity_before(entries@[j].0@, k));
            }
            lemma_place_is(before, k, at as int);
            lemma_added(before, k, v);
        }
        entries.insert(at, (key, value));
        assert(bindings_of(entries@) =~= added(before, k, v));
        *self = ResultMap { entries };
        Ok(())
    }
}

} // verus!
