//! What holds of a variant once it is filled: which of its members are its
//! own, which come from the document, and which stay out.

use crate::error::ConfigErrorView;
use crate::json::{JsonValue, Members};
use crate::layering::{
    config_fields, fanned_package, fanned_packages, filled_variant, filled_variants,
    package_fields, retained, with_defaults, with_slot, with_value, without,
};
use crate::decode::{members_of, value_of};
use crate::table::{
    first_at, has_key, lemma_first_at, lemma_first_at_same_names, lemma_lookup_push, lookup,
};
use crate::text::{indexed, joined};
use vstd::prelude::*;

verus! {

/// Under each name, the members with defaults hold what the target holds
/// there; where the target holds nothing and the name is not ignored, what the
/// defaults hold there.
pub proof fn lemma_with_defaults_lookup(
    target: Members,
    defaults: Members,
    ignored: Seq<Seq<char>>,
    key: Seq<char>,
)
    ensures
        lookup(with_defaults(target, defaults, ignored), key) == if has_key(target, key) {
            lookup(target, key)
        } else if ignored.contains(key) {
            None
        } else {
            lookup(defaults, key)
        },
    decreases defaults.len(),
{
    lemma_first_at(target, key);
    lemma_first_at(defaults, key);
    if defaults.len() > 0 {
        let init = defaults.drop_last();
        let entry = defaults.last();
        assert(defaults =~= init.push(entry));
        let prior = with_defaults(target, init, ignored);
        lemma_with_defaults_lookup(target, init, ignored, key);
        lemma_with_defaults_lookup(target, init, ignored, entry.0);
        lemma_lookup_push(init, entry, key);
        lemma_lookup_push(prior, entry, key);
        lemma_first_at(prior, key);
        lemma_first_at(init, key);
        lemma_first_at(prior, entry.0);
        lemma_first_at(init, entry.0);
        lemma_first_at(target, entry.0);
    }
}

/// Defaults that the target has, or that are ignored, change nothing.
pub proof fn lemma_with_defaults_nothing(target: Members, defaults: Members, ignored: Seq<Seq<char>>)
    requires
        forall|i: int|
            0 <= i < defaults.len() ==> ignored.contains((#[trigger] defaults[i]).0) || has_key(
                target,
                defaults[i].0,
            ),
    ensures
        with_defaults(target, defaults, ignored) == target,
    decreases defaults.len(),
{
    if defaults.len() > 0 {
        let init = defaults.drop_last();
        assert forall|i: int| 0 <= i < init.len() implies ignored.contains((#[trigger] init[i]).0)
            || has_key(target, init[i].0) by {
            assert(init[i] == defaults[i]);
        }
        lemma_with_defaults_nothing(target, init, ignored);
        assert(defaults.last() == defaults[defaults.len() - 1]);
    }
}

/// What the members with a slot hold under each name.
pub proof fn lemma_with_slot_lookup(members: Members, slot: Seq<char>, key: Seq<char>)
    ensures
        lookup(with_slot(members, slot), key) == if key == slot && !has_key(members, slot) {
            Some(JsonValue::Object(Seq::empty()))
        } else {
            lookup(members, key)
        },
{
    lemma_lookup_push(members, (slot, JsonValue::Object(Seq::empty())), key);
    lemma_first_at(members, key);
}

/// What the members with a new value hold under each name.
pub proof fn lemma_with_value_lookup(
    members: Members,
    slot: Seq<char>,
    value: JsonValue,
    key: Seq<char>,
)
    ensures
        lookup(with_value(members, slot, value), key) == if key == slot && has_key(members, slot) {
            Some(value)
        } else {
            lookup(members, key)
        },
{
    lemma_first_at(members, slot);
    lemma_first_at(members, key);
    if has_key(members, slot) {
        let out = with_value(members, slot, value);
        assert forall|i: int| 0 <= i < members.len() implies (#[trigger] members[i]).0
            == out[i].0 by {}
        lemma_first_at_same_names(members, out, key);
    }
}

/// A new value that is the old one changes nothing.
pub proof fn lemma_with_value_nothing(members: Members, slot: Seq<char>, value: JsonValue)
    requires
        lookup(members, slot) == Some(value),
    ensures
        with_value(members, slot, value) == members,
{
    lemma_first_at(members, slot);
    assert(with_value(members, slot, value) =~= members);
}

/// What the members without a name hold under each other name.
pub proof fn lemma_without_lookup(members: Members, gone: Seq<char>, key: Seq<char>)
    ensures
        lookup(without(members, gone), key) == if key == gone {
            None
        } else {
            lookup(members, key)
        },
    decreases members.len(),
{
    lemma_first_at(members, key);
    lemma_first_at(without(members, gone), key);
    if members.len() > 0 {
        let init = members.drop_last();
        let entry = members.last();
        assert(members =~= init.push(entry));
        lemma_without_lookup(init, gone, key);
        lemma_lookup_push(init, entry, key);
        lemma_lookup_push(without(init, gone), entry, key);
        lemma_first_at(init, key);
        lemma_first_at(without(init, gone), key);
    }
}

/// What the retained members hold under each name.
pub proof fn lemma_retained_lookup(members: Members, allowed: Seq<Seq<char>>, key: Seq<char>)
    ensures
        lookup(retained(members, allowed), key) == if allowed.contains(key) {
            lookup(members, key)
        } else {
            None
        },
    decreases members.len(),
{
    lemma_first_at(members, key);
    lemma_first_at(retained(members, allowed), key);
    if members.len() > 0 {
        let init = members.drop_last();
        let entry = members.last();
        assert(members =~= init.push(entry));
        lemma_retained_lookup(init, allowed, key);
        lemma_lookup_push(init, entry, key);
        lemma_lookup_push(retained(init, allowed), entry, key);
        lemma_first_at(init, key);
        lemma_first_at(retained(init, allowed), key);
    }
}

/// Members whose names are all allowed are all retained.
pub proof fn lemma_retained_all(members: Members, allowed: Seq<Seq<char>>)
    requires
        forall|i: int| 0 <= i < members.len() ==> allowed.contains((#[trigger] members[i]).0),
    ensures
        retained(members, allowed) == members,
    decreases members.len(),
{
    if members.len() > 0 {
        let init = members.drop_last();
        assert forall|i: int| 0 <= i < init.len() implies allowed.contains((#[trigger] init[i]).0) by {
            assert(init[i] == members[i]);
        }
        lemma_retained_all(init, allowed);
        assert(members.last() == members[members.len() - 1]);
        assert(init.push(members.last()) =~= members);
    }
}

/// The options of the package `name` among the packages of a variant.
pub open spec fn entry_of(packages: Members, name: Seq<char>) -> Members {
    members_of(value_of(packages, name))
}

/// What one step of laying packages under a variant does to each package.
pub proof fn lemma_fanned_package(
    local: Members,
    laid: Seq<char>,
    options: JsonValue,
    location: Seq<char>,
    name: Seq<char>,
)
    requires
        fanned_package(local, laid, options, location) is Ok,
    ensures
        ({
            let out = fanned_package(local, laid, options, location)->Ok_0;
            if name == laid {
                lookup(out, name) == Some(
                    JsonValue::Object(
                        with_defaults(entry_of(local, name), members_of(options), package_fields()),
                    ),
                )
            } else {
                lookup(out, name) == lookup(local, name)
            }
        }),
{
    let slotted = with_slot(local, laid);
    lemma_with_slot_lookup(local, laid, name);
    lemma_with_slot_lookup(local, laid, laid);
    lemma_first_at(local, laid);
    lemma_first_at(slotted, laid);
    let own = members_of(lookup(slotted, laid)->Some_0);
    let merged = JsonValue::Object(with_defaults(own, members_of(options), package_fields()));
    lemma_with_value_lookup(slotted, laid, merged, name);
}

/// What laying the packages of the document under a variant does to each
/// package of the variant.
pub proof fn lemma_fanned_packages(local: Members, global: Members, location: Seq<char>, name: Seq<char>)
    requires
        fanned_packages(local, global, location) is Ok,
    ensures
        ({
            let out = fanned_packages(local, global, location)->Ok_0;
            &&& !has_key(global, name) ==> lookup(out, name) == lookup(local, name)
            &&& has_key(global, name) ==> lookup(out, name) is Some && lookup(out, name)->Some_0 is Object
            &&& forall|key: Seq<char>|
                has_key(entry_of(local, name), key) ==> #[trigger] has_key(entry_of(out, name), key)
            &&& forall|key: Seq<char>|
                package_fields().contains(key) && #[trigger] has_key(entry_of(out, name), key)
                    ==> has_key(entry_of(local, name), key)
            &&& forall|key: Seq<char>|
                !package_fields().contains(key) && #[trigger] has_key(
                    entry_of(global, name),
                    key,
                ) ==> has_key(entry_of(out, name), key)
        }),
    decreases global.len(),
{
    lemma_first_at(global, name);
    if global.len() > 0 {
        let init = global.drop_last();
        let last = global.last();
        assert(global =~= init.push(last));
        let prior = fanned_packages(local, init, location)->Ok_0;
        let out = fanned_packages(local, global, location)->Ok_0;
        lemma_fanned_packages(local, init, location, name);
        lemma_fanned_package(prior, last.0, last.1, location, name);
        lemma_lookup_push(init, last, name);
        lemma_first_at(init, name);
        let before = entry_of(prior, name);
        let shared = members_of(last.1);
        assert forall|key: Seq<char>| has_key(entry_of(local, name), key) implies #[trigger] has_key(
            entry_of(out, name),
            key,
        ) by {
            assert(has_key(entry_of(prior, name), key));
            if name == last.0 {
                lemma_with_defaults_lookup(before, shared, package_fields(), key);
            }
        }
        assert forall|key: Seq<char>|
            package_fields().contains(key) && #[trigger] has_key(
                entry_of(out, name),
                key,
            ) implies has_key(entry_of(local, name), key) by {
            if name == last.0 {
                lemma_with_defaults_lookup(before, shared, package_fields(), key);
            }
            assert(has_key(entry_of(prior, name), key));
        }
        assert forall|key: Seq<char>|
            !package_fields().contains(key) && #[trigger] has_key(
                entry_of(global, name),
                key,
            ) implies has_key(entry_of(out, name), key) by {
            if name == last.0 {
                lemma_with_defaults_lookup(before, shared, package_fields(), key);
                if has_key(init, name) {
                    assert(has_key(entry_of(init, name), key));
                    assert(has_key(entry_of(prior, name), key));
                }
            } else {
                assert(has_key(entry_of(init, name), key));
                assert(has_key(entry_of(prior, name), key));
            }
        }
    }
}

/// Where the document names every package once: what laying its packages
/// under a variant gives for each package that it names.
pub proof fn lemma_fanned_packages_once(
    local: Members,
    global: Members,
    location: Seq<char>,
    name: Seq<char>,
)
    requires
        fanned_packages(local, global, location) is Ok,
        has_key(global, name),
        forall|i: int, j: int|
            0 <= i < j < global.len() ==> (#[trigger] global[i]).0 != (#[trigger] global[j]).0,
    ensures
        lookup(fanned_packages(local, global, location)->Ok_0, name) == Some(
            JsonValue::Object(
                with_defaults(entry_of(local, name), entry_of(global, name), package_fields()),
            ),
        ),
    decreases global.len(),
{
    lemma_first_at(global, name);
    let init = global.drop_last();
    let last = global.last();
    assert(global =~= init.push(last));
    let prior = fanned_packages(local, init, location)->Ok_0;
    lemma_fanned_package(prior, last.0, last.1, location, name);
    lemma_lookup_push(init, last, name);
    lemma_first_at(init, name);
    assert forall|i: int, j: int| 0 <= i < j < init.len() implies (#[trigger] init[i]).0 != (
    #[trigger] init[j]).0 by {
        assert(init[i] == global[i] && init[j] == global[j]);
    }
    if has_key(init, name) {
        let f = first_at(init, name);
        assert(global[f] == init[f]);
        assert(global[f].0 != global[global.len() - 1].0);
        lemma_fanned_packages_once(local, init, location, name);
    } else {
        lemma_fanned_packages(local, init, location, name);
    }
}

/// The packages of a variant: the members of the object under `package`.
pub open spec fn packages_of(fields: Members) -> Members {
    members_of(value_of(fields, "package"@))
}

/// What a filled variant holds: under each name but `package` what is its
/// own, else what the document holds there; and under `package` its packages
/// with those of the document laid under them.
pub proof fn lemma_filled_variant(top: Members, own: Members, location: Seq<char>, key: Seq<char>)
    requires
        filled_variant(top, JsonValue::Object(own), location) is Ok,
    ensures
        ({
            let filled = members_of(filled_variant(top, JsonValue::Object(own), location)->Ok_0);
            &&& filled_variant(top, JsonValue::Object(own), location)->Ok_0 is Object
            &&& key != "package"@ ==> lookup(filled, key) == if has_key(own, key) {
                lookup(own, key)
            } else {
                lookup(top, key)
            }
            &&& has_key(own, key) ==> has_key(filled, key)
            &&& !has_key(top, "package"@) ==> lookup(filled, "package"@) == lookup(own, "package"@)
            &&& has_key(top, "package"@) ==> {
                &&& value_of(top, "package"@) is Object
                &&& lookup(filled, "package"@) is Some
                &&& fanned_packages(
                    packages_of(own),
                    packages_of(top),
                    joined(location, "package"@),
                ) == Ok::<Members, ConfigErrorView>(packages_of(filled))
            }
        }),
{
    let base = with_defaults(own, top, config_fields());
    lemma_with_defaults_lookup(own, top, config_fields(), key);
    lemma_with_defaults_lookup(own, top, config_fields(), "package"@);
    assert(config_fields()[0] == "package"@);
    assert(config_fields().contains("package"@));
    assert(!config_fields().contains(key) || key == "package"@);
    lemma_first_at(top, "package"@);
    lemma_first_at(own, key);
    lemma_first_at(base, key);
    lemma_first_at(own, "package"@);
    lemma_first_at(base, "package"@);
    if has_key(top, "package"@) {
        let slotted = with_slot(base, "package"@);
        lemma_with_slot_lookup(base, "package"@, key);
        lemma_with_slot_lookup(base, "package"@, "package"@);
        lemma_first_at(slotted, "package"@);
        lemma_first_at(slotted, key);
        let local = members_of(lookup(slotted, "package"@)->Some_0);
        let global = members_of(lookup(top, "package"@)->Some_0);
        let fanned = fanned_packages(local, global, joined(location, "package"@))->Ok_0;
        lemma_with_value_lookup(slotted, "package"@, JsonValue::Object(fanned), key);
        lemma_with_value_lookup(slotted, "package"@, JsonValue::Object(fanned), "package"@);
        let filled = with_value(slotted, "package"@, JsonValue::Object(fanned));
        lemma_first_at(filled, key);
        assert(local == packages_of(own));
    }
}

/// The filled variants are as many as the variants, and each is its variant, filled.
pub proof fn lemma_filled_variants(top: Members, variants: Seq<JsonValue>, i: int)
    requires
        filled_variants(top, variants) is Ok,
        0 <= i < variants.len(),
    ensures
        filled_variants(top, variants)->Ok_0.len() == variants.len(),
        filled_variant(top, variants[i], indexed("variants"@, i as nat)) == Ok::<
            JsonValue,
            ConfigErrorView,
        >(filled_variants(top, variants)->Ok_0[i]),
    decreases variants.len(),
{
    let init = variants.drop_last();
    if i < variants.len() - 1 {
        lemma_filled_variants(top, init, i);
        assert(init[i] == variants[i]);
    } else if init.len() > 0 {
        lemma_filled_variants(top, init, 0);
    }
}

} // verus!
