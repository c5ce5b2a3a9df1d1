//! What holds of the fields that are written for each part of a configuration.

use crate::config::{PackageConfigView, PackageVariantConfigView, VariantConfigView, ConfigView};
use crate::codec::well_keyed;
use crate::encode::{
    compact, config_slots, encoded, encoded_package, encoded_package_variant, encoded_variant,
    encoded_variants, flag_slot, list_slot, list_table_object, list_table_slot, optional_list_slot,
    package_slots, package_table_object, package_table_slot, package_variant_slots,
    package_variant_table_object, package_variant_table_slot, text_array, text_slot,
    text_table_object, text_table_slot, variant_slots, Slot,
};
use crate::json::JsonValue;
use crate::table::{
    first_at, has_key, keys_ascend, lemma_ascending_keys_differ, lemma_first_at,
    lemma_first_at_push, lemma_lookup_push, lookup,
};
use vstd::prelude::*;

verus! {

/// Whether no two fields have the same name.
pub open spec fn names_differ(slots: Seq<Slot>) -> bool {
    forall|i: int, j: int|
        0 <= i < j < slots.len() ==> (#[trigger] slots[i]).0 != (#[trigger] slots[j]).0
}

/// What is written under a name: the value of the field of that name, if it
/// has one.
pub open spec fn written(slots: Seq<Slot>, name: Seq<char>) -> Option<JsonValue> {
    match lookup(slots, name) {
        Some(Some(value)) => Some(value),
        _ => None,
    }
}

/// Under each name the members hold what the field of that name writes, and
/// no name is written twice.
pub proof fn lemma_compact(slots: Seq<Slot>)
    requires
        names_differ(slots),
    ensures
        forall|name: Seq<char>| #[trigger] lookup(compact(slots), name) == written(slots, name),
        forall|m: int|
            0 <= m < compact(slots).len() ==> first_at(
                compact(slots),
                (#[trigger] compact(slots)[m]).0,
            ) == m,
    decreases slots.len(),
{
    reveal(compact);
    if slots.len() > 0 {
        let init = slots.drop_last();
        let last = slots.last();
        assert(slots =~= init.push(last));
        assert forall|i: int, j: int| 0 <= i < j < init.len() implies (#[trigger] init[i]).0 != (
        #[trigger] init[j]).0 by {
            assert(init[i] == slots[i] && init[j] == slots[j]);
        }
        lemma_compact(init);
        let prior = compact(init);
        let out = compact(slots);
        // the name of the last field is not among the fields before it
        lemma_first_at(init, last.0);
        if first_at(init, last.0) < init.len() {
            let f = first_at(init, last.0);
            assert(slots[f] == init[f]);
            assert(slots[f].0 != slots[slots.len() - 1].0);
        }
        assert(lookup(prior, last.0) == written(init, last.0));
        assert(!has_key(prior, last.0));
        assert forall|name: Seq<char>| #[trigger] lookup(out, name) == written(slots, name) by {
            lemma_lookup_push(init, last, name);
            assert(lookup(prior, name) == written(init, name));
            match last.1 {
                Some(value) => {
                    lemma_lookup_push(prior, (last.0, value), name);
                },
                None => {},
            }
        }
        assert forall|m: int| 0 <= m < out.len() implies first_at(out, (#[trigger] out[m]).0)
            == m by {
            match last.1 {
                Some(value) => {
                    lemma_first_at_push(prior, (last.0, value), out[m].0);
                    if m < prior.len() {
                        assert(out[m] == prior[m]);
                        assert(first_at(prior, prior[m].0) == m);
                    } else {
                        lemma_first_at(prior, last.0);
                    }
                },
                None => {},
            }
        }
    } else {
        assert forall|name: Seq<char>| #[trigger] lookup(compact(slots), name) == written(
            slots,
            name,
        ) by {
            lemma_first_at(compact(slots), name);
            lemma_first_at(slots, name);
        }
    }
}

/// Every member that is written comes from a field: the field of its name
/// writes its value.
pub proof fn lemma_compact_member(slots: Seq<Slot>, m: int)
    requires
        names_differ(slots),
        0 <= m < compact(slots).len(),
    ensures
        written(slots, compact(slots)[m].0) == Some(compact(slots)[m].1),
        first_at(compact(slots), compact(slots)[m].0) == m,
        has_key(slots, compact(slots)[m].0),
{
    lemma_compact(slots);
    let out = compact(slots);
    assert(first_at(out, out[m].0) == m);
    assert(lookup(out, out[m].0) == written(slots, out[m].0));
}

/// The fields of a variant have different names.
pub proof fn lemma_variant_names_differ(options: VariantConfigView)
    ensures
        names_differ(variant_slots(options)),
{
    reveal_strlit("tests");
    reveal_strlit("features");
    reveal_strlit("workspace");
    reveal_strlit("workspace_excludes");
    reveal_strlit("global_defaults");
    reveal_strlit("apex_available");
    reveal_strlit("product_available");
    reveal_strlit("vendor_available");
    reveal_strlit("min_sdk_version");
    reveal_strlit("module_name_overrides");
    reveal_strlit("package");
    reveal_strlit("cfg_blocklist");
    reveal_strlit("module_blocklist");
    reveal_strlit("module_visibility");
    reveal_strlit("run_cargo");
    let slots = variant_slots(options);
    assert forall|i: int, j: int| 0 <= i < j < slots.len() implies (#[trigger] slots[i]).0 != (
    #[trigger] slots[j]).0 by {
        let a = slots[i].0;
        let b = slots[j].0;
        if a.len() == b.len() {
            assert(a[0] != b[0]);
        }
    }
}

/// The fields of the options of a package within a variant have different names.
pub proof fn lemma_package_variant_names_differ(options: PackageVariantConfigView)
    ensures
        names_differ(package_variant_slots(options)),
{
    reveal_strlit("alloc");
    reveal_strlit("device_supported");
    reveal_strlit("host_supported");
    reveal_strlit("host_first_multilib");
    reveal_strlit("force_rlib");
    reveal_strlit("no_presubmit");
    reveal_strlit("add_module_block");
    reveal_strlit("dep_blocklist");
    reveal_strlit("no_std");
    reveal_strlit("copy_out");
    reveal_strlit("test_data");
    let slots = package_variant_slots(options);
    assert forall|i: int, j: int| 0 <= i < j < slots.len() implies (#[trigger] slots[i]).0 != (
    #[trigger] slots[j]).0 by {
        let a = slots[i].0;
        let b = slots[j].0;
        if a.len() == b.len() {
            assert(a[0] != b[0]);
        }
    }
}

/// The fields of the options of a package have different names.
pub proof fn lemma_package_names_differ(options: PackageConfigView)
    ensures
        names_differ(package_slots(options)),
{
    reveal_strlit("add_toplevel_block");
    reveal_strlit("patch");
    let slots = package_slots(options);
    assert forall|i: int, j: int| 0 <= i < j < slots.len() implies (#[trigger] slots[i]).0 != (
    #[trigger] slots[j]).0 by {
        assert(slots[i].0.len() != slots[j].0.len());
    }
}

/// The fields of a configuration have different names.
pub proof fn lemma_config_names_differ(options: ConfigView)
    ensures
        names_differ(config_slots(options)),
{
    reveal_strlit("variants");
    reveal_strlit("package");
    let slots = config_slots(options);
    assert forall|i: int, j: int| 0 <= i < j < slots.len() implies (#[trigger] slots[i]).0 != (
    #[trigger] slots[j]).0 by {
        assert(slots[i].0.len() != slots[j].0.len());
    }
}

/// Whether what a field writes, if anything, names no member twice.
pub open spec fn slot_well_keyed(slot: Option<JsonValue>) -> bool {
    slot matches Some(value) ==> well_keyed(value)
}

/// Fields of different names whose values name no member twice give an
/// object that names no member twice.
pub proof fn lemma_compact_well_keyed(slots: Seq<Slot>)
    requires
        names_differ(slots),
        forall|k: int| 0 <= k < slots.len() ==> slot_well_keyed((#[trigger] slots[k]).1),
    ensures
        well_keyed(JsonValue::Object(compact(slots))),
{
    lemma_compact(slots);
    let out = compact(slots);
    assert forall|i: int, j: int| 0 <= i < j < out.len() implies (#[trigger] out[i]).0 != (
    #[trigger] out[j]).0 by {
        assert(first_at(out, out[i].0) == i);
        assert(first_at(out, out[j].0) == j);
    }
    assert forall|i: int| 0 <= i < out.len() implies well_keyed((#[trigger] out[i]).1) by {
        lemma_compact_member(slots, i);
        lemma_first_at(slots, out[i].0);
        let k = first_at(slots, out[i].0);
        assert(slot_well_keyed(slots[k].1));
    }
}

/// An array of strings names no member twice.
pub proof fn lemma_text_array_well_keyed(list: Seq<Seq<char>>)
    ensures
        well_keyed(text_array(list)),
{
    let items = text_array(list)->Array_0;
    assert forall|i: int| 0 <= i < items.len() implies well_keyed(#[trigger] items[i]) by {}
}

/// The object of a table of strings names no member twice.
pub proof fn lemma_text_table_well_keyed(table: Seq<(Seq<char>, Seq<char>)>)
    requires
        keys_ascend(table),
    ensures
        well_keyed(text_table_object(table)),
{
    let members = text_table_object(table)->Object_0;
    assert forall|i: int, j: int| 0 <= i < j < members.len() implies (#[trigger] members[i]).0 != (
    #[trigger] members[j]).0 by {
        lemma_ascending_keys_differ(table, i, j);
    }
    assert forall|i: int| 0 <= i < members.len() implies well_keyed((#[trigger] members[i]).1) by {}
}

/// The object of a table of string lists names no member twice.
pub proof fn lemma_list_table_well_keyed(table: Seq<(Seq<char>, Seq<Seq<char>>)>)
    requires
        keys_ascend(table),
    ensures
        well_keyed(list_table_object(table)),
{
    let members = list_table_object(table)->Object_0;
    assert forall|i: int, j: int| 0 <= i < j < members.len() implies (#[trigger] members[i]).0 != (
    #[trigger] members[j]).0 by {
        lemma_ascending_keys_differ(table, i, j);
    }
    assert forall|i: int| 0 <= i < members.len() implies well_keyed((#[trigger] members[i]).1) by {
        lemma_text_array_well_keyed(table[i].1);
    }
}

/// What is written for a list of strings names no member twice.
pub proof fn lemma_list_slots_well_keyed()
    ensures
        forall|list: Seq<Seq<char>>, default: Seq<Seq<char>>| #[trigger]
            slot_well_keyed(list_slot(list, default)),
        forall|value: Option<Seq<Seq<char>>>| #[trigger]
            slot_well_keyed(optional_list_slot(value)),
        forall|value: bool, default: bool| #[trigger] slot_well_keyed(flag_slot(value, default)),
        forall|value: Option<Seq<char>>| #[trigger] slot_well_keyed(text_slot(value)),
{
    assert forall|list: Seq<Seq<char>>, default: Seq<Seq<char>>| #[trigger]
        slot_well_keyed(list_slot(list, default)) by {
        lemma_text_array_well_keyed(list);
    }
    assert forall|value: Option<Seq<Seq<char>>>| #[trigger]
        slot_well_keyed(optional_list_slot(value)) by {
        if value is Some {
            lemma_text_array_well_keyed(value->0);
        }
    }
}

/// The document of the options of a package within a variant names no member twice.
pub proof fn lemma_package_variant_well_keyed(options: PackageVariantConfigView)
    requires
        options.ordered(),
    ensures
        well_keyed(encoded_package_variant(options)),
{
    lemma_package_variant_names_differ(options);
    lemma_list_slots_well_keyed();
    if options.test_data.len() > 0 {
        lemma_list_table_well_keyed(options.test_data);
    }
    let slots = package_variant_slots(options);
    assert(slot_well_keyed(list_table_slot(options.test_data)));
    assert forall|k: int| 0 <= k < slots.len() implies slot_well_keyed((#[trigger] slots[k]).1) by {}
    lemma_compact_well_keyed(slots);
}

/// The document of the options of a package names no member twice.
pub proof fn lemma_package_well_keyed(options: PackageConfigView)
    ensures
        well_keyed(encoded_package(options)),
{
    lemma_package_names_differ(options);
    lemma_list_slots_well_keyed();
    let slots = package_slots(options);
    assert forall|k: int| 0 <= k < slots.len() implies slot_well_keyed((#[trigger] slots[k]).1) by {}
    lemma_compact_well_keyed(slots);
}

/// The document of a variant names no member twice.
pub proof fn lemma_variant_well_keyed(options: VariantConfigView)
    requires
        options.ordered(),
    ensures
        well_keyed(encoded_variant(options)),
{
    lemma_variant_names_differ(options);
    lemma_list_slots_well_keyed();
    if options.module_name_overrides.len() > 0 {
        lemma_text_table_well_keyed(options.module_name_overrides);
    }
    if options.module_visibility.len() > 0 {
        lemma_list_table_well_keyed(options.module_visibility);
    }
    if options.package.len() > 0 {
        let table = options.package;
        let members = package_variant_table_object(table)->Object_0;
        assert forall|i: int, j: int| 0 <= i < j < members.len() implies (
        #[trigger] members[i]).0 != (#[trigger] members[j]).0 by {
            lemma_ascending_keys_differ(table, i, j);
        }
        assert forall|i: int| 0 <= i < members.len() implies well_keyed(
            (#[trigger] members[i]).1,
        ) by {
            assert(table[i].1.ordered());
            lemma_package_variant_well_keyed(table[i].1);
        }
        assert(well_keyed(package_variant_table_object(table)));
    }
    let slots = variant_slots(options);
    assert(slot_well_keyed(text_table_slot(options.module_name_overrides)));
    assert(slot_well_keyed(list_table_slot(options.module_visibility)));
    assert(slot_well_keyed(package_variant_table_slot(options.package)));
    assert forall|k: int| 0 <= k < slots.len() implies slot_well_keyed((#[trigger] slots[k]).1) by {}
    lemma_compact_well_keyed(slots);
}

/// The document of a configuration names no member twice.
pub proof fn lemma_encoded_well_keyed(options: ConfigView)
    requires
        options.ordered(),
    ensures
        well_keyed(encoded(options)),
{
    lemma_config_names_differ(options);
    let variants = encoded_variants(options.variants)->Array_0;
    assert forall|i: int| 0 <= i < variants.len() implies well_keyed(#[trigger] variants[i]) by {
        assert(options.variants[i].ordered());
        lemma_variant_well_keyed(options.variants[i]);
    }
    assert(well_keyed(encoded_variants(options.variants)));
    if options.package.len() > 0 {
        let table = options.package;
        let members = package_table_object(table)->Object_0;
        assert forall|i: int, j: int| 0 <= i < j < members.len() implies (
        #[trigger] members[i]).0 != (#[trigger] members[j]).0 by {
            lemma_ascending_keys_differ(table, i, j);
        }
        assert forall|i: int| 0 <= i < members.len() implies well_keyed(
            (#[trigger] members[i]).1,
        ) by {
            lemma_package_well_keyed(table[i].1);
        }
        assert(well_keyed(package_table_object(table)));
    }
    let slots = config_slots(options);
    assert(slot_well_keyed(package_table_slot(options.package)));
    assert forall|k: int| 0 <= k < slots.len() implies slot_well_keyed((#[trigger] slots[k]).1) by {}
    lemma_compact_well_keyed(slots);
}

} // verus!
