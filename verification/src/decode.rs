//! From a document to the typed configuration that it states.
//!
//! Every field takes what the document gives under its name; a field that the
//! document leaves out, or fills with something of another shape, takes its
//! default.

use crate::config::{
    default_apex, default_apex_available, Config, ConfigView, PackageConfig, PackageConfigView,
    PackageVariantConfig, PackageVariantConfigView, VariantConfig, VariantConfigView,
};
use crate::json::{lemma_array_model, lemma_object_model, position, Json, JsonValue, Members};
use crate::table::{inserted, lookup, Table};
use vstd::prelude::*;

verus! {

broadcast use {lemma_array_model, lemma_object_model};

/// The members of an object; none for anything else.
pub open spec fn members_of(value: JsonValue) -> Members {
    match value {
        JsonValue::Object(members) => members,
        _ => Seq::empty(),
    }
}

/// The flag under `name`, or `fallback`.
pub open spec fn flag_of(fields: Members, name: Seq<char>, fallback: bool) -> bool {
    match lookup(fields, name) {
        Some(JsonValue::Bool(flag)) => flag,
        _ => fallback,
    }
}

/// The string that a value is; the empty string for anything else.
pub open spec fn text_of(value: JsonValue) -> Seq<char> {
    match value {
        JsonValue::Text(text) => text,
        _ => Seq::empty(),
    }
}

/// The string under `name`, if there is one.
pub open spec fn optional_text_of(fields: Members, name: Seq<char>) -> Option<Seq<char>> {
    match lookup(fields, name) {
        Some(JsonValue::Text(text)) => Some(text),
        _ => None,
    }
}

/// The strings of an array; none for anything else.
pub open spec fn texts_of(value: JsonValue) -> Seq<Seq<char>> {
    match value {
        JsonValue::Array(items) => Seq::new(items.len(), |i: int| text_of(items[i])),
        _ => Seq::empty(),
    }
}

/// The strings under `name`, or `fallback` where the name is absent.
pub open spec fn text_list_of(fields: Members, name: Seq<char>, fallback: Seq<Seq<char>>) -> Seq<
    Seq<char>,
> {
    match lookup(fields, name) {
        Some(value) => texts_of(value),
        None => fallback,
    }
}

/// The strings under `name`, if an array is there.
pub open spec fn optional_text_list_of(fields: Members, name: Seq<char>) -> Option<Seq<Seq<char>>> {
    match lookup(fields, name) {
        Some(JsonValue::Array(items)) => Some(texts_of(JsonValue::Array(items))),
        _ => None,
    }
}

/// The table of what the members hold, each value converted and bound to its
/// name, member by member: a name that comes again is bound anew.
pub open spec fn table_from<T>(members: Members, convert: spec_fn(JsonValue) -> T) -> Seq<
    (Seq<char>, T),
>
    decreases members.len(),
{
    if members.len() == 0 {
        Seq::empty()
    } else {
        inserted(
            table_from(members.drop_last(), convert),
            members.last().0,
            convert(members.last().1),
        )
    }
}

/// The conversion of a value to the string that it is.
pub open spec fn as_text() -> spec_fn(JsonValue) -> Seq<char> {
    |value: JsonValue| text_of(value)
}

/// The conversion of a value to the strings that it holds.
pub open spec fn as_texts() -> spec_fn(JsonValue) -> Seq<Seq<char>> {
    |value: JsonValue| texts_of(value)
}

/// The table of the strings of the members.
pub open spec fn text_table_from(members: Members) -> Seq<(Seq<char>, Seq<char>)> {
    table_from(members, as_text())
}

/// The table of the string lists of the members.
pub open spec fn text_list_table_from(members: Members) -> Seq<(Seq<char>, Seq<Seq<char>>)> {
    table_from(members, as_texts())
}

/// The options of a package within a variant that an object states.
pub open spec fn package_variant_of(value: JsonValue) -> PackageVariantConfigView {
    let fields = members_of(value);
    PackageVariantConfigView {
        alloc: flag_of(fields, "alloc"@, false),
        device_supported: flag_of(fields, "device_supported"@, true),
        host_supported: flag_of(fields, "host_supported"@, true),
        host_first_multilib: flag_of(fields, "host_first_multilib"@, false),
        force_rlib: flag_of(fields, "force_rlib"@, false),
        no_presubmit: flag_of(fields, "no_presubmit"@, false),
        add_module_block: optional_text_of(fields, "add_module_block"@),
        dep_blocklist: text_list_of(fields, "dep_blocklist"@, Seq::empty()),
        no_std: flag_of(fields, "no_std"@, false),
        copy_out: flag_of(fields, "copy_out"@, false),
        test_data: text_list_table_from(members_of(value_of(fields, "test_data"@))),
    }
}

/// The value under `name`, or `null`.
pub open spec fn value_of(fields: Members, name: Seq<char>) -> JsonValue {
    match lookup(fields, name) {
        Some(value) => value,
        None => JsonValue::Null,
    }
}

/// The conversion of a value to the options of a package within a variant
/// that it states.
pub open spec fn as_package_variant() -> spec_fn(JsonValue) -> PackageVariantConfigView {
    |value: JsonValue| package_variant_of(value)
}

/// The table of the options that the members state.
pub open spec fn package_variant_table_from(members: Members) -> Seq<
    (Seq<char>, PackageVariantConfigView),
> {
    table_from(members, as_package_variant())
}

/// The options of a package that an object states.
pub open spec fn package_of(value: JsonValue) -> PackageConfigView {
    let fields = members_of(value);
    PackageConfigView {
        add_toplevel_block: optional_text_of(fields, "add_toplevel_block"@),
        patch: optional_text_of(fields, "patch"@),
    }
}

/// The conversion of a value to the options of a package that it states.
pub open spec fn as_package() -> spec_fn(JsonValue) -> PackageConfigView {
    |value: JsonValue| package_of(value)
}

/// The table of the options that the members state.
pub open spec fn package_table_from(members: Members) -> Seq<(Seq<char>, PackageConfigView)> {
    table_from(members, as_package())
}

/// The variant that an object states.
pub open spec fn variant_of(value: JsonValue) -> VariantConfigView {
    let fields = members_of(value);
    VariantConfigView {
        tests: flag_of(fields, "tests"@, false),
        features: optional_text_list_of(fields, "features"@),
        workspace: flag_of(fields, "workspace"@, false),
        workspace_excludes: text_list_of(fields, "workspace_excludes"@, Seq::empty()),
        global_defaults: optional_text_of(fields, "global_defaults"@),
        apex_available: text_list_of(fields, "apex_available"@, default_apex()),
        product_available: flag_of(fields, "product_available"@, true),
        vendor_available: flag_of(fields, "vendor_available"@, true),
        min_sdk_version: optional_text_of(fields, "min_sdk_version"@),
        module_name_overrides: text_table_from(
            members_of(value_of(fields, "module_name_overrides"@)),
        ),
        package: package_variant_table_from(members_of(value_of(fields, "package"@))),
        cfg_blocklist: text_list_of(fields, "cfg_blocklist"@, Seq::empty()),
        module_blocklist: text_list_of(fields, "module_blocklist"@, Seq::empty()),
        module_visibility: text_list_table_from(members_of(value_of(fields, "module_visibility"@))),
        run_cargo: flag_of(fields, "run_cargo"@, true),
    }
}

/// The variants that an array states; none for anything else.
pub open spec fn variants_of(value: JsonValue) -> Seq<VariantConfigView> {
    match value {
        JsonValue::Array(items) => Seq::new(items.len(), |i: int| variant_of(items[i])),
        _ => Seq::empty(),
    }
}

/// The configuration that a document states.
pub open spec fn config_of(document: JsonValue) -> ConfigView {
    let fields = members_of(document);
    ConfigView {
        variants: variants_of(value_of(fields, "variants"@)),
        package: package_table_from(members_of(value_of(fields, "package"@))),
    }
}

/// The value under `name`, if there is one.
fn member<'a>(fields: &'a Vec<(String, Json)>, name: &str) -> (found: Option<&'a Json>)
    ensures
        match lookup(fields.deep_view(), name@) {
            Some(value) => found matches Some(json) && json@ == value,
            None => found is None,
        },
{
    let at = position(fields, name);
    if at < fields.len() {
        Some(&fields[at].1)
    } else {
        None
    }
}

/// The flag under `name`, or `fallback`.
fn flag(fields: &Vec<(String, Json)>, name: &str, fallback: bool) -> (r: bool)
    ensures
        r == flag_of(fields.deep_view(), name@, fallback),
{
    match member(fields, name) {
        Some(Json::Bool(flag)) => *flag,
        _ => fallback,
    }
}

/// The string under `name`, if there is one.
fn optional_text(fields: &Vec<(String, Json)>, name: &str) -> (r: Option<String>)
    ensures
        r.deep_view() == optional_text_of(fields.deep_view(), name@),
{
    match member(fields, name) {
        Some(Json::Text(text)) => Some(text.clone()),
        _ => None,
    }
}

/// The strings of an array; none for anything else.
fn texts(value: &Json) -> (r: Vec<String>)
    ensures
        r.deep_view() == texts_of(value@),
{
    let mut list: Vec<String> = Vec::new();
    match value {
        Json::Array(items) => {
            let mut i: usize = 0;
            while i < items.len()
                invariant
                    i <= items@.len(),
                    list@.len() == i,
                    forall|j: int|
                        0 <= j < i ==> (#[trigger] list@[j])@ == text_of(items.deep_view()[j]),
                decreases items@.len() - i,
            {
                match &items[i] {
                    Json::Text(text) => {
                        list.push(text.clone());
                    },
                    _ => {
                        list.push(String::new());
                    },
                }
                i += 1;
            }
            assert(list.deep_view() =~= texts_of(value@));
        },
        _ => {
            assert(list.deep_view() =~= texts_of(value@));
        },
    }
    list
}

/// The strings under `name`, or `fallback` where the name is absent.
fn text_list(fields: &Vec<(String, Json)>, name: &str, fallback: Vec<String>) -> (r: Vec<String>)
    ensures
        r.deep_view() == text_list_of(fields.deep_view(), name@, fallback.deep_view()),
{
    match member(fields, name) {
        Some(value) => texts(value),
        None => fallback,
    }
}

/// The list without strings.
fn no_texts() -> (r: Vec<String>)
    ensures
        r.deep_view() == Seq::<Seq<char>>::empty(),
{
    let r: Vec<String> = Vec::new();
    assert(r.deep_view() =~= Seq::<Seq<char>>::empty());
    r
}

/// The strings under `name`, if an array is there.
fn optional_text_list(fields: &Vec<(String, Json)>, name: &str) -> (r: Option<Vec<String>>)
    ensures
        r.deep_view() == optional_text_list_of(fields.deep_view(), name@),
{
    match member(fields, name) {
        Some(value) => match value {
            Json::Array(_) => Some(texts(value)),
            _ => None,
        },
        None => None,
    }
}

/// The members of the object under `name`; none where no object is there.
fn table_members<'a>(fields: &'a Vec<(String, Json)>, name: &str) -> (found: Option<
    &'a Vec<(String, Json)>,
>)
    ensures
        match found {
            Some(members) => members.deep_view() == members_of(
                value_of(fields.deep_view(), name@),
            ),
            None => members_of(value_of(fields.deep_view(), name@)) == Seq::<
                (Seq<char>, JsonValue),
            >::empty(),
        },
{
    match member(fields, name) {
        Some(Json::Object(members)) => Some(members),
        _ => None,
    }
}

/// The table of strings under `name`.
fn text_table(fields: &Vec<(String, Json)>, name: &str) -> (table: Table<String>)
    ensures
        table@ == text_table_from(members_of(value_of(fields.deep_view(), name@))),
{
    let mut table: Table<String> = Table::new();
    match table_members(fields, name) {
        Some(members) => {
            let ghost source = members.deep_view();
            let mut i: usize = 0;
            assert(source.take(0) =~= Seq::empty());
            while i < members.len()
                invariant
                    i <= members@.len(),
                    source == members.deep_view(),
                    table@ == text_table_from(source.take(i as int)),
                decreases members@.len() - i,
            {
                assert(source.take(i + 1).drop_last() =~= source.take(i as int));
                assert(source.take(i + 1).last() == source[i as int]);
                let text = match &members[i].1 {
                    Json::Text(text) => text.clone(),
                    _ => String::new(),
                };
                table.insert(members[i].0.clone(), text);
                i += 1;
            }
            assert(source.take(i as int) =~= source);
        },
        None => {},
    }
    table
}

/// The table of string lists under `name`.
fn text_list_table(fields: &Vec<(String, Json)>, name: &str) -> (table: Table<Vec<String>>)
    ensures
        table@ == text_list_table_from(members_of(value_of(fields.deep_view(), name@))),
{
    let mut table: Table<Vec<String>> = Table::new();
    match table_members(fields, name) {
        Some(members) => {
            let ghost source = members.deep_view();
            let mut i: usize = 0;
            assert(source.take(0) =~= Seq::empty());
            while i < members.len()
                invariant
                    i <= members@.len(),
                    source == members.deep_view(),
                    table@ == text_list_table_from(source.take(i as int)),
                decreases members@.len() - i,
            {
                assert(source.take(i + 1).drop_last() =~= source.take(i as int));
                assert(source.take(i + 1).last() == source[i as int]);
                table.insert(members[i].0.clone(), texts(&members[i].1));
                i += 1;
            }
            assert(source.take(i as int) =~= source);
        },
        None => {},
    }
    table
}

/// The members of an object; none for anything else.
fn fields_of(value: &Json) -> (fields: Option<&Vec<(String, Json)>>)
    ensures
        match fields {
            Some(members) => members.deep_view() == members_of(value@),
            None => members_of(value@) == Seq::<(Seq<char>, JsonValue)>::empty(),
        },
{
    match value {
        Json::Object(members) => Some(members),
        _ => None,
    }
}

/// The options of a package within a variant that an object states.
pub fn package_variant(value: &Json) -> (options: PackageVariantConfig)
    ensures
        options@ == package_variant_of(value@),
{
    let none: Vec<(String, Json)> = Vec::new();
    assert(none.deep_view() =~= Seq::<(Seq<char>, JsonValue)>::empty());
    let fields = match fields_of(value) {
        Some(fields) => fields,
        None => &none,
    };
    PackageVariantConfig {
        alloc: flag(fields, "alloc", false),
        device_supported: flag(fields, "device_supported", true),
        host_supported: flag(fields, "host_supported", true),
        host_first_multilib: flag(fields, "host_first_multilib", false),
        force_rlib: flag(fields, "force_rlib", false),
        no_presubmit: flag(fields, "no_presubmit", false),
        add_module_block: optional_text(fields, "add_module_block"),
        dep_blocklist: text_list(fields, "dep_blocklist", no_texts()),
        no_std: flag(fields, "no_std", false),
        copy_out: flag(fields, "copy_out", false),
        test_data: text_list_table(fields, "test_data"),
    }
}

/// The options of a package that an object states.
pub fn package(value: &Json) -> (options: PackageConfig)
    ensures
        options@ == package_of(value@),
{
    let none: Vec<(String, Json)> = Vec::new();
    assert(none.deep_view() =~= Seq::<(Seq<char>, JsonValue)>::empty());
    let fields = match fields_of(value) {
        Some(fields) => fields,
        None => &none,
    };
    PackageConfig {
        add_toplevel_block: optional_text(fields, "add_toplevel_block"),
        patch: optional_text(fields, "patch"),
    }
}

/// The table of package options under `name`.
fn package_variant_table(fields: &Vec<(String, Json)>, name: &str) -> (table: Table<
    PackageVariantConfig,
>)
    ensures
        table@ == package_variant_table_from(members_of(value_of(fields.deep_view(), name@))),
{
    let mut table: Table<PackageVariantConfig> = Table::new();
    match table_members(fields, name) {
        Some(members) => {
            let ghost source = members.deep_view();
            let mut i: usize = 0;
            assert(source.take(0) =~= Seq::empty());
            while i < members.len()
                invariant
                    i <= members@.len(),
                    source == members.deep_view(),
                    table@ == package_variant_table_from(source.take(i as int)),
                decreases members@.len() - i,
            {
                assert(source.take(i + 1).drop_last() =~= source.take(i as int));
                assert(source.take(i + 1).last() == source[i as int]);
                table.insert(members[i].0.clone(), package_variant(&members[i].1));
                i += 1;
            }
            assert(source.take(i as int) =~= source);
        },
        None => {},
    }
    table
}

/// The table of package options under `name`.
fn package_table(fields: &Vec<(String, Json)>, name: &str) -> (table: Table<PackageConfig>)
    ensures
        table@ == package_table_from(members_of(value_of(fields.deep_view(), name@))),
{
    let mut table: Table<PackageConfig> = Table::new();
    match table_members(fields, name) {
        Some(members) => {
            let ghost source = members.deep_view();
            let mut i: usize = 0;
            assert(source.take(0) =~= Seq::empty());
            while i < members.len()
                invariant
                    i <= members@.len(),
                    source == members.deep_view(),
                    table@ == package_table_from(source.take(i as int)),
                decreases members@.len() - i,
            {
                assert(source.take(i + 1).drop_last() =~= source.take(i as int));
                assert(source.take(i + 1).last() == source[i as int]);
                table.insert(members[i].0.clone(), package(&members[i].1));
                i += 1;
            }
            assert(source.take(i as int) =~= source);
        },
        None => {},
    }
    table
}

/// The variant that an object states.
pub fn variant(value: &Json) -> (options: VariantConfig)
    ensures
        options@ == variant_of(value@),
{
    let none: Vec<(String, Json)> = Vec::new();
    assert(none.deep_view() =~= Seq::<(Seq<char>, JsonValue)>::empty());
    let fields = match fields_of(value) {
        Some(fields) => fields,
        None => &none,
    };
    VariantConfig {
        tests: flag(fields, "tests", false),
        features: optional_text_list(fields, "features"),
        workspace: flag(fields, "workspace", false),
        workspace_excludes: text_list(fields, "workspace_excludes", no_texts()),
        global_defaults: optional_text(fields, "global_defaults"),
        apex_available: text_list(fields, "apex_available", default_apex_available()),
        product_available: flag(fields, "product_available", true),
        vendor_available: flag(fields, "vendor_available", true),
        min_sdk_version: optional_text(fields, "min_sdk_version"),
        module_name_overrides: text_table(fields, "module_name_overrides"),
        package: package_variant_table(fields, "package"),
        cfg_blocklist: text_list(fields, "cfg_blocklist", no_texts()),
        module_blocklist: text_list(fields, "module_blocklist", no_texts()),
        module_visibility: text_list_table(fields, "module_visibility"),
        run_cargo: flag(fields, "run_cargo", true),
    }
}

/// The variants that the array under `name` states.
fn variants(fields: &Vec<(String, Json)>, name: &str) -> (list: Vec<VariantConfig>)
    ensures
        list.deep_view() == variants_of(value_of(fields.deep_view(), name@)),
{
    let mut list: Vec<VariantConfig> = Vec::new();
    match member(fields, name) {
        Some(Json::Array(items)) => {
            let mut i: usize = 0;
            while i < items.len()
                invariant
                    i <= items@.len(),
                    list@.len() == i,
                    forall|j: int|
                        0 <= j < i ==> (#[trigger] list@[j])@ == variant_of(items.deep_view()[j]),
                decreases items@.len() - i,
            {
                list.push(variant(&items[i]));
                i += 1;
            }
            assert(list.deep_view() =~= variants_of(JsonValue::Array(items.deep_view())));
        },
        _ => {
            assert(list.deep_view() =~= Seq::<VariantConfigView>::empty());
        },
    }
    list
}

/// The configuration that a document states.
pub fn config(document: &Json) -> (options: Config)
    ensures
        options@ == config_of(document@),
{
    let none: Vec<(String, Json)> = Vec::new();
    assert(none.deep_view() =~= Seq::<(Seq<char>, JsonValue)>::empty());
    let fields = match fields_of(document) {
        Some(fields) => fields,
        None => &none,
    };
    Config { variants: variants(fields, "variants"), package: package_table(fields, "package") }
}

} // verus!
