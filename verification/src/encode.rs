//! From a typed configuration to the smallest document that states it: every
//! field that has its default is left out.

use crate::config::{
    default_apex, is_default_apex_available, Config, ConfigView, PackageConfig, PackageConfigView,
    PackageVariantConfig, PackageVariantConfigView, VariantConfig, VariantConfigView,
};
use crate::json::{lemma_array_model, lemma_object_model, Json, JsonValue, Members};
use crate::table::Table;
use vstd::prelude::*;

verus! {

broadcast use {lemma_array_model, lemma_object_model};

/// A field of a part: its name, and the value that is written for it, if any.
pub type Slot = (Seq<char>, Option<JsonValue>);

/// The members that the fields give: those with a value, in their order.
#[verifier::opaque]
pub open spec fn compact(slots: Seq<Slot>) -> Members
    decreases slots.len(),
{
    if slots.len() == 0 {
        Seq::empty()
    } else {
        let prior = compact(slots.drop_last());
        match slots.last().1 {
            Some(value) => prior.push((slots.last().0, value)),
            None => prior,
        }
    }
}

/// What is written for a flag: nothing where it has its default.
pub open spec fn flag_slot(value: bool, default: bool) -> Option<JsonValue> {
    if value == default {
        None
    } else {
        Some(JsonValue::Bool(value))
    }
}

/// What is written for an optional string: nothing where there is none.
pub open spec fn text_slot(value: Option<Seq<char>>) -> Option<JsonValue> {
    match value {
        Some(text) => Some(JsonValue::Text(text)),
        None => None,
    }
}

/// The array of the strings.
pub open spec fn text_array(list: Seq<Seq<char>>) -> JsonValue {
    JsonValue::Array(Seq::new(list.len(), |i: int| JsonValue::Text(list[i])))
}

/// What is written for a list of strings: nothing where it has its default.
pub open spec fn list_slot(list: Seq<Seq<char>>, default: Seq<Seq<char>>) -> Option<JsonValue> {
    if list == default {
        None
    } else {
        Some(text_array(list))
    }
}

/// What is written for an optional list of strings: nothing where there is none.
pub open spec fn optional_list_slot(value: Option<Seq<Seq<char>>>) -> Option<JsonValue> {
    match value {
        Some(list) => Some(text_array(list)),
        None => None,
    }
}

/// The object of the strings of a table.
pub open spec fn text_table_object(table: Seq<(Seq<char>, Seq<char>)>) -> JsonValue {
    JsonValue::Object(Seq::new(table.len(), |i: int| (table[i].0, JsonValue::Text(table[i].1))))
}

/// What is written for a table of strings: nothing where it is empty.
pub open spec fn text_table_slot(table: Seq<(Seq<char>, Seq<char>)>) -> Option<JsonValue> {
    if table.len() == 0 {
        None
    } else {
        Some(text_table_object(table))
    }
}

/// The object of the string lists of a table.
pub open spec fn list_table_object(table: Seq<(Seq<char>, Seq<Seq<char>>)>) -> JsonValue {
    JsonValue::Object(Seq::new(table.len(), |i: int| (table[i].0, text_array(table[i].1))))
}

/// What is written for a table of string lists: nothing where it is empty.
pub open spec fn list_table_slot(table: Seq<(Seq<char>, Seq<Seq<char>>)>) -> Option<JsonValue> {
    if table.len() == 0 {
        None
    } else {
        Some(list_table_object(table))
    }
}

/// The fields of the options of a package within a variant.
pub open spec fn package_variant_slots(options: PackageVariantConfigView) -> Seq<Slot> {
    seq![
        ("alloc"@, flag_slot(options.alloc, false)),
        ("device_supported"@, flag_slot(options.device_supported, true)),
        ("host_supported"@, flag_slot(options.host_supported, true)),
        ("host_first_multilib"@, flag_slot(options.host_first_multilib, false)),
        ("force_rlib"@, flag_slot(options.force_rlib, false)),
        ("no_presubmit"@, flag_slot(options.no_presubmit, false)),
        ("add_module_block"@, text_slot(options.add_module_block)),
        ("dep_blocklist"@, list_slot(options.dep_blocklist, Seq::empty())),
        ("no_std"@, flag_slot(options.no_std, false)),
        ("copy_out"@, flag_slot(options.copy_out, false)),
        ("test_data"@, list_table_slot(options.test_data)),
    ]
}

/// The document of the options of a package within a variant.
pub open spec fn encoded_package_variant(options: PackageVariantConfigView) -> JsonValue {
    JsonValue::Object(compact(package_variant_slots(options)))
}

/// The object of the package options of a variant.
pub open spec fn package_variant_table_object(
    table: Seq<(Seq<char>, PackageVariantConfigView)>,
) -> JsonValue {
    JsonValue::Object(
        Seq::new(table.len(), |i: int| (table[i].0, encoded_package_variant(table[i].1))),
    )
}

/// What is written for the package options of a variant: nothing where there are none.
pub open spec fn package_variant_table_slot(
    table: Seq<(Seq<char>, PackageVariantConfigView)>,
) -> Option<JsonValue> {
    if table.len() == 0 {
        None
    } else {
        Some(package_variant_table_object(table))
    }
}

/// The fields of the options of a package.
pub open spec fn package_slots(options: PackageConfigView) -> Seq<Slot> {
    seq![
        ("add_toplevel_block"@, text_slot(options.add_toplevel_block)),
        ("patch"@, text_slot(options.patch)),
    ]
}

/// The document of the options of a package.
pub open spec fn encoded_package(options: PackageConfigView) -> JsonValue {
    JsonValue::Object(compact(package_slots(options)))
}

/// The object of the package options of a configuration.
pub open spec fn package_table_object(table: Seq<(Seq<char>, PackageConfigView)>) -> JsonValue {
    JsonValue::Object(Seq::new(table.len(), |i: int| (table[i].0, encoded_package(table[i].1))))
}

/// What is written for the package options of a configuration: nothing where
/// there are none.
pub open spec fn package_table_slot(table: Seq<(Seq<char>, PackageConfigView)>) -> Option<JsonValue> {
    if table.len() == 0 {
        None
    } else {
        Some(package_table_object(table))
    }
}

/// The fields of a variant.
pub open spec fn variant_slots(options: VariantConfigView) -> Seq<Slot> {
    seq![
        ("tests"@, flag_slot(options.tests, false)),
        ("features"@, optional_list_slot(options.features)),
        ("workspace"@, flag_slot(options.workspace, false)),
        ("workspace_excludes"@, list_slot(options.workspace_excludes, Seq::empty())),
        ("global_defaults"@, text_slot(options.global_defaults)),
        ("apex_available"@, list_slot(options.apex_available, default_apex())),
        ("product_available"@, flag_slot(options.product_available, true)),
        ("vendor_available"@, flag_slot(options.vendor_available, true)),
        ("min_sdk_version"@, text_slot(options.min_sdk_version)),
        ("module_name_overrides"@, text_table_slot(options.module_name_overrides)),
        ("package"@, package_variant_table_slot(options.package)),
        ("cfg_blocklist"@, list_slot(options.cfg_blocklist, Seq::empty())),
        ("module_blocklist"@, list_slot(options.module_blocklist, Seq::empty())),
        ("module_visibility"@, list_table_slot(options.module_visibility)),
        ("run_cargo"@, flag_slot(options.run_cargo, true)),
    ]
}

/// The document of a variant.
pub open spec fn encoded_variant(options: VariantConfigView) -> JsonValue {
    JsonValue::Object(compact(variant_slots(options)))
}

/// The array of the documents of the variants.
pub open spec fn encoded_variants(variants: Seq<VariantConfigView>) -> JsonValue {
    JsonValue::Array(Seq::new(variants.len(), |i: int| encoded_variant(variants[i])))
}

/// The fields of a configuration.
pub open spec fn config_slots(options: ConfigView) -> Seq<Slot> {
    seq![
        ("variants"@, Some(encoded_variants(options.variants))),
        ("package"@, package_table_slot(options.package)),
    ]
}

/// The smallest document that states a configuration: the variants, then the
/// packages, each field in the order of its part, none that has its default.
pub open spec fn encoded(options: ConfigView) -> JsonValue {
    JsonValue::Object(compact(config_slots(options)))
}

/// What is written for a flag.
fn flag_value(value: bool, default: bool) -> (r: Option<Json>)
    ensures
        r.deep_view() == flag_slot(value, default),
{
    if value == default {
        None
    } else {
        Some(Json::Bool(value))
    }
}

/// What is written for an optional string.
fn text_value(value: &Option<String>) -> (r: Option<Json>)
    ensures
        r.deep_view() == text_slot(value.deep_view()),
{
    match value {
        Some(text) => Some(Json::Text(text.clone())),
        None => None,
    }
}

/// The array of the strings.
fn text_array_value(list: &Vec<String>) -> (r: Json)
    ensures
        r@ == text_array(list.deep_view()),
{
    let mut items: Vec<Json> = Vec::new();
    let mut i: usize = 0;
    while i < list.len()
        invariant
            i <= list@.len(),
            items@.len() == i,
            forall|j: int| 0 <= j < i ==> (#[trigger] items@[j])@ == JsonValue::Text(list@[j]@),
        decreases list@.len() - i,
    {
        items.push(Json::Text(list[i].clone()));
        i += 1;
    }
    assert(items.deep_view() =~= text_array(list.deep_view())->Array_0);
    Json::Array(items)
}

/// What is written for a list of strings whose default is the empty list.
fn list_value(list: &Vec<String>) -> (r: Option<Json>)
    ensures
        r.deep_view() == list_slot(list.deep_view(), Seq::empty()),
{
    if list.len() == 0 {
        assert(list.deep_view() =~= Seq::<Seq<char>>::empty());
        None
    } else {
        Some(text_array_value(list))
    }
}

/// What is written for the `apex_available` list.
fn apex_value(list: &Vec<String>) -> (r: Option<Json>)
    ensures
        r.deep_view() == list_slot(list.deep_view(), default_apex()),
{
    if is_default_apex_available(list.as_slice()) {
        None
    } else {
        Some(text_array_value(list))
    }
}

/// What is written for an optional list of strings.
fn optional_list_value(value: &Option<Vec<String>>) -> (r: Option<Json>)
    ensures
        r.deep_view() == optional_list_slot(value.deep_view()),
{
    match value {
        Some(list) => Some(text_array_value(list)),
        None => None,
    }
}

/// What is written for a table of strings.
fn text_table_value(table: &Table<String>) -> (r: Option<Json>)
    ensures
        r.deep_view() == text_table_slot(table@),
{
    if table.is_empty() {
        return None;
    }
    let mut members: Vec<(String, Json)> = Vec::new();
    let mut i: usize = 0;
    while i < table.len()
        invariant
            i <= table@.len(),
            members@.len() == i,
            forall|j: int|
                0 <= j < i ==> (#[trigger] members@[j]).deep_view() == (
                    table@[j].0,
                    JsonValue::Text(table@[j].1),
                ),
        decreases table@.len() - i,
    {
        members.push((table.key_at(i).clone(), Json::Text(table.value_at(i).clone())));
        i += 1;
    }
    assert(members.deep_view() =~= text_table_object(table@)->Object_0);
    Some(Json::Object(members))
}

/// What is written for a table of string lists.
fn list_table_value(table: &Table<Vec<String>>) -> (r: Option<Json>)
    ensures
        r.deep_view() == list_table_slot(table@),
{
    if table.is_empty() {
        return None;
    }
    let mut members: Vec<(String, Json)> = Vec::new();
    let mut i: usize = 0;
    while i < table.len()
        invariant
            i <= table@.len(),
            members@.len() == i,
            forall|j: int|
                0 <= j < i ==> (#[trigger] members@[j]).deep_view() == (
                    table@[j].0,
                    text_array(table@[j].1),
                ),
        decreases table@.len() - i,
    {
        members.push((table.key_at(i).clone(), text_array_value(table.value_at(i))));
        i += 1;
    }
    assert(members.deep_view() =~= list_table_object(table@)->Object_0);
    Some(Json::Object(members))
}

/// The members that the fields give: those with a value, in their order.
fn compact_fields(slots: Vec<(&'static str, Option<Json>)>) -> (members: Vec<(String, Json)>)
    ensures
        members.deep_view() == compact(slots.deep_view()),
{
    let ghost source = slots.deep_view();
    let mut members: Vec<(String, Json)> = Vec::new();
    let mut slots = slots;
    let mut i: usize = 0;
    assert(source.take(0) =~= Seq::empty());
    assert(members.deep_view() =~= compact(source.take(0))) by {
        reveal(compact);
    }
    while i < slots.len()
        invariant
            i <= slots@.len(),
            source.len() == slots@.len(),
            forall|j: int| i <= j < slots@.len() ==> (#[trigger] slots@[j]).deep_view() == source[j],
            members.deep_view() == compact(source.take(i as int)),
        decreases slots@.len() - i,
    {
        let ghost before = members.deep_view();
        assert(source.take(i + 1).drop_last() =~= source.take(i as int));
        assert(source.take(i + 1).last() == source[i as int]);
        assert(slots@[i as int].deep_view() == source[i as int]);
        reveal(compact);
        let name = slots[i].0;
        let mut value: Option<Json> = None;
        let ghost rest = slots@;
        core::mem::swap(&mut value, &mut slots[i].1);
        assert(forall|j: int| i < j < slots@.len() ==> slots@[j] == rest[j]);
        match value {
            Some(json) => {
                members.push((name.to_string(), json));
                assert(members.deep_view() =~= before.push((name@, json@)));
            },
            None => {},
        }
        i += 1;
    }
    assert(source.take(i as int) =~= source);
    members
}

/// The document of the options of a package within a variant.
pub fn encode_package_variant(options: &PackageVariantConfig) -> (r: Json)
    ensures
        r@ == encoded_package_variant(options@),
        options@.ordered(),
{
    proof {
        use_type_invariant(&options.test_data);
    }
    let slots = vec![
        ("alloc", flag_value(options.alloc, false)),
        ("device_supported", flag_value(options.device_supported, true)),
        ("host_supported", flag_value(options.host_supported, true)),
        ("host_first_multilib", flag_value(options.host_first_multilib, false)),
        ("force_rlib", flag_value(options.force_rlib, false)),
        ("no_presubmit", flag_value(options.no_presubmit, false)),
        ("add_module_block", text_value(&options.add_module_block)),
        ("dep_blocklist", list_value(&options.dep_blocklist)),
        ("no_std", flag_value(options.no_std, false)),
        ("copy_out", flag_value(options.copy_out, false)),
        ("test_data", list_table_value(&options.test_data)),
    ];
    assert(slots.deep_view() =~= package_variant_slots(options@));
    Json::Object(compact_fields(slots))
}

/// The document of the options of a package.
pub fn encode_package(options: &PackageConfig) -> (r: Json)
    ensures
        r@ == encoded_package(options@),
{
    let slots = vec![
        ("add_toplevel_block", text_value(&options.add_toplevel_block)),
        ("patch", text_value(&options.patch)),
    ];
    assert(slots.deep_view() =~= package_slots(options@));
    Json::Object(compact_fields(slots))
}

/// What is written for the package options of a variant.
fn package_variant_table_value(table: &Table<PackageVariantConfig>) -> (r: Option<Json>)
    ensures
        r.deep_view() == package_variant_table_slot(table@),
        forall|i: int| 0 <= i < table@.len() ==> (#[trigger] table@[i]).1.ordered(),
{
    let mut members: Vec<(String, Json)> = Vec::new();
    let mut i: usize = 0;
    while i < table.len()
        invariant
            i <= table@.len(),
            members@.len() == i,
            forall|j: int|
                0 <= j < i ==> (#[trigger] members@[j]).deep_view() == (
                    table@[j].0,
                    encoded_package_variant(table@[j].1),
                ),
            forall|j: int| 0 <= j < i ==> (#[trigger] table@[j]).1.ordered(),
        decreases table@.len() - i,
    {
        members.push((table.key_at(i).clone(), encode_package_variant(table.value_at(i))));
        i += 1;
    }
    if members.len() == 0 {
        None
    } else {
        assert(members.deep_view() =~= package_variant_table_object(table@)->Object_0);
        Some(Json::Object(members))
    }
}

/// What is written for the package options of a configuration.
fn package_table_value(table: &Table<PackageConfig>) -> (r: Option<Json>)
    ensures
        r.deep_view() == package_table_slot(table@),
{
    if table.is_empty() {
        return None;
    }
    let mut members: Vec<(String, Json)> = Vec::new();
    let mut i: usize = 0;
    while i < table.len()
        invariant
            i <= table@.len(),
            members@.len() == i,
            forall|j: int|
                0 <= j < i ==> (#[trigger] members@[j]).deep_view() == (
                    table@[j].0,
                    encoded_package(table@[j].1),
                ),
        decreases table@.len() - i,
    {
        members.push((table.key_at(i).clone(), encode_package(table.value_at(i))));
        i += 1;
    }
    assert(members.deep_view() =~= package_table_object(table@)->Object_0);
    Some(Json::Object(members))
}

/// The document of a variant.
pub fn encode_variant(options: &VariantConfig) -> (r: Json)
    ensures
        r@ == encoded_variant(options@),
        options@.ordered(),
{
    proof {
        use_type_invariant(&options.module_name_overrides);
        use_type_invariant(&options.package);
        use_type_invariant(&options.module_visibility);
    }
    let slots = vec![
        ("tests", flag_value(options.tests, false)),
        ("features", optional_list_value(&options.features)),
        ("workspace", flag_value(options.workspace, false)),
        ("workspace_excludes", list_value(&options.workspace_excludes)),
        ("global_defaults", text_value(&options.global_defaults)),
        ("apex_available", apex_value(&options.apex_available)),
        ("product_available", flag_value(options.product_available, true)),
        ("vendor_available", flag_value(options.vendor_available, true)),
        ("min_sdk_version", text_value(&options.min_sdk_version)),
        ("module_name_overrides", text_table_value(&options.module_name_overrides)),
        ("package", package_variant_table_value(&options.package)),
        ("cfg_blocklist", list_value(&options.cfg_blocklist)),
        ("module_blocklist", list_value(&options.module_blocklist)),
        ("module_visibility", list_table_value(&options.module_visibility)),
        ("run_cargo", flag_value(options.run_cargo, true)),
    ];
    assert(slots.deep_view() =~= variant_slots(options@));
    Json::Object(compact_fields(slots))
}

/// The smallest document that states a configuration.
pub fn encode(options: &Config) -> (r: Json)
    ensures
        r@ == encoded(options@),
        options@.ordered(),
{
    proof {
        use_type_invariant(&options.package);
    }
    let mut variants: Vec<Json> = Vec::new();
    let mut i: usize = 0;
    while i < options.variants.len()
        invariant
            i <= options.variants@.len(),
            variants@.len() == i,
            forall|j: int|
                0 <= j < i ==> (#[trigger] variants@[j])@ == encoded_variant(options@.variants[j]),
            forall|j: int| 0 <= j < i ==> (#[trigger] options@.variants[j]).ordered(),
        decreases options.variants@.len() - i,
    {
        variants.push(encode_variant(&options.variants[i]));
        i += 1;
    }
    assert(variants.deep_view() =~= encoded_variants(options@.variants)->Array_0);
    let slots = vec![
        ("variants", Some(Json::Array(variants))),
        ("package", package_table_value(&options.package)),
    ];
    assert(slots.deep_view() =~= config_slots(options@));
    Json::Object(compact_fields(slots))
}

} // verus!
