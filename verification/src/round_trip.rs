//! Writing a configuration and reading what was written gives the
//! configuration back.

use crate::config::{ConfigView, PackageConfigView, PackageVariantConfigView, VariantConfigView};
use crate::decode::{
    as_package, as_package_variant, as_text, as_texts, config_of, members_of, package_of,
    package_table_from, package_variant_of, package_variant_table_from, table_from,
    text_list_table_from, text_table_from, texts_of, variant_of,
};
use crate::encode::{
    compact, config_slots, encoded, encoded_package, encoded_package_variant, encoded_variant,
    encoded_variants, list_table_object, package_slots, package_table_object,
    package_variant_slots, package_variant_table_object, text_array, text_table_object,
    variant_slots, Slot,
};
use crate::faults::{
    lemma_config_fault_none, lemma_plain_fault_none, lemma_table_fault_none,
    lemma_variant_fault_none, lemma_variants_fault_none,
};
use crate::fields::{
    lemma_compact, lemma_compact_member, lemma_package_names_differ,
    lemma_package_variant_names_differ, lemma_variant_names_differ, names_differ, written,
};
use crate::filling::{lemma_retained_all, lemma_with_defaults_nothing, lemma_with_value_nothing};
use crate::error::ConfigErrorView;
use crate::json::{JsonValue, Members};
use crate::layering::{
    config_fields, fanned_packages, filled_variant, filled_variants, layered, listed_variants,
    package_fields, pruned_packages, with_slot, without,
};
use crate::resolve::{decoded, resolved};
use crate::schema::{fits, is_text_list, plain_field, variant_field, Kind, Schema, VariantField};
use crate::table::{
    first_at, has_key, inserted, keys_ascend, lemma_first_at, lemma_first_at_is,
    lemma_first_at_same_names, lemma_rank_is, lookup,
};
use crate::text::{indexed, joined, text_before};
use crate::validate::{
    config_member_fault, plain_fault, plain_member_fault, table_fault, variant_fault,
    variant_member_fault, variants_fault,
};
use vstd::prelude::*;

verus! {

/// The table of members that hold an ascending table, name for name and
/// value for value, is that table.
pub proof fn lemma_table_from_ascending<T>(
    members: Members,
    convert: spec_fn(JsonValue) -> T,
    table: Seq<(Seq<char>, T)>,
)
    requires
        keys_ascend(table),
        members.len() == table.len(),
        forall|i: int|
            0 <= i < table.len() ==> (#[trigger] members[i]).0 == table[i].0 && convert(
                members[i].1,
            ) == table[i].1,
    ensures
        table_from(members, convert) == table,
    decreases members.len(),
{
    if members.len() > 0 {
        let init = members.drop_last();
        let begin = table.drop_last();
        let last = table.last();
        assert forall|i: int, j: int| 0 <= i < j < begin.len() implies text_before(
            #[trigger] begin[i].0,
            #[trigger] begin[j].0,
        ) by {
            assert(begin[i] == table[i] && begin[j] == table[j]);
        }
        assert forall|i: int| 0 <= i < begin.len() implies (#[trigger] init[i]).0 == begin[i].0
            && convert(init[i].1) == begin[i].1 by {
            assert(init[i] == members[i] && begin[i] == table[i]);
        }
        lemma_table_from_ascending(init, convert, begin);
        assert(members.last() == members[members.len() - 1]);
        assert(last == table[table.len() - 1]);
        assert forall|j: int| 0 <= j < begin.len() implies text_before(
            (#[trigger] begin[j]).0,
            last.0,
        ) by {
            assert(begin[j] == table[j]);
        }
        lemma_rank_is(begin, last.0, begin.len() as int);
        assert(inserted(begin, last.0, last.1) =~= table);
    } else {
        assert(table =~= Seq::empty());
    }
}

/// The strings of the array of a list are the list.
pub proof fn lemma_texts_round(list: Seq<Seq<char>>)
    ensures
        texts_of(text_array(list)) == list,
        is_text_list(text_array(list)),
{
    assert(texts_of(text_array(list)) =~= list);
}

/// The table of the object of a table of strings is the table, and the
/// object fits a field for such a table.
pub proof fn lemma_text_table_round(table: Seq<(Seq<char>, Seq<char>)>)
    requires
        keys_ascend(table),
    ensures
        text_table_from(members_of(text_table_object(table))) == table,
        fits(text_table_object(table), Kind::TextTable),
{
    let members = members_of(text_table_object(table));
    assert forall|i: int| 0 <= i < table.len() implies (#[trigger] members[i]).0 == table[i].0
        && as_text()(members[i].1) == table[i].1 by {}
    lemma_table_from_ascending(members, as_text(), table);
}

/// The table of the object of a table of string lists is the table, and the
/// object fits a field for such a table.
pub proof fn lemma_list_table_round(table: Seq<(Seq<char>, Seq<Seq<char>>)>)
    requires
        keys_ascend(table),
    ensures
        text_list_table_from(members_of(list_table_object(table))) == table,
        fits(list_table_object(table), Kind::TextListTable),
{
    let members = members_of(list_table_object(table));
    assert forall|i: int| 0 <= i < table.len() implies (#[trigger] members[i]).0 == table[i].0
        && as_texts()(members[i].1) == table[i].1 by {
        lemma_texts_round(table[i].1);
    }
    lemma_table_from_ascending(members, as_texts(), table);
    assert forall|i: int| 0 <= i < members.len() implies is_text_list((#[trigger] members[i]).1) by {
        lemma_texts_round(table[i].1);
    }
}

/// Under the name of a field the members hold what the field writes.
pub proof fn lemma_slot(slots: Seq<Slot>, k: int)
    requires
        names_differ(slots),
        0 <= k < slots.len(),
    ensures
        lookup(compact(slots), slots[k].0) == slots[k].1,
{
    lemma_compact(slots);
    assert forall|j: int| 0 <= j < k implies (#[trigger] slots[j]).0 != slots[k].0 by {}
    lemma_first_at_is(slots, slots[k].0, k);
}

/// Whether what a field writes, if anything, fits the field in a part
/// without further parts.
pub open spec fn slot_fits(schema: Schema, slot: Slot) -> bool {
    slot.1 matches Some(value) ==> (plain_field(schema, slot.0) matches Some(kind) && fits(
        value,
        kind,
    ))
}

/// A part whose fields have different names and write what fits them has no fault.
pub proof fn lemma_plain_slots_faultless(schema: Schema, slots: Seq<Slot>, location: Seq<char>)
    requires
        names_differ(slots),
        forall|k: int| 0 <= k < slots.len() ==> slot_fits(schema, #[trigger] slots[k]),
    ensures
        plain_fault(schema, JsonValue::Object(compact(slots)), location) is None,
{
    let fields = compact(slots);
    assert forall|m: int| 0 <= m < fields.len() implies #[trigger] plain_member_fault(
        schema,
        fields,
        m,
        location,
    ) is None by {
        lemma_compact_member(slots, m);
        lemma_first_at(slots, fields[m].0);
        let k = first_at(slots, fields[m].0);
        assert(slot_fits(schema, slots[k]));
    }
    lemma_plain_fault_none(schema, fields, fields.len() as int, location);
}

/// The kinds of the fields of the options of a package within a variant.
pub proof fn lemma_package_variant_fields()
    ensures
        plain_field(Schema::PackageVariant, "alloc"@) == Some(Kind::Flag),
        plain_field(Schema::PackageVariant, "device_supported"@) == Some(Kind::Flag),
        plain_field(Schema::PackageVariant, "host_supported"@) == Some(Kind::Flag),
        plain_field(Schema::PackageVariant, "host_first_multilib"@) == Some(Kind::Flag),
        plain_field(Schema::PackageVariant, "force_rlib"@) == Some(Kind::Flag),
        plain_field(Schema::PackageVariant, "no_presubmit"@) == Some(Kind::Flag),
        plain_field(Schema::PackageVariant, "add_module_block"@) == Some(Kind::OptionalText),
        plain_field(Schema::PackageVariant, "dep_blocklist"@) == Some(Kind::TextList),
        plain_field(Schema::PackageVariant, "no_std"@) == Some(Kind::Flag),
        plain_field(Schema::PackageVariant, "copy_out"@) == Some(Kind::Flag),
        plain_field(Schema::PackageVariant, "test_data"@) == Some(Kind::TextListTable),
{
    lemma_package_variant_names_differ(PackageVariantConfigView::initial());
    let slots = package_variant_slots(PackageVariantConfigView::initial());
    assert(slots[0].0 == "alloc"@);
    assert(slots[1].0 == "device_supported"@);
    assert(slots[2].0 == "host_supported"@);
    assert(slots[3].0 == "host_first_multilib"@);
    assert(slots[4].0 == "force_rlib"@);
    assert(slots[5].0 == "no_presubmit"@);
    assert(slots[6].0 == "add_module_block"@);
    assert(slots[7].0 == "dep_blocklist"@);
    assert(slots[8].0 == "no_std"@);
    assert(slots[9].0 == "copy_out"@);
    assert(slots[10].0 == "test_data"@);
}

/// The kinds of the fields of a variant.
pub proof fn lemma_variant_fields()
    ensures
        variant_field("tests"@) == Some(VariantField::Plain(Kind::Flag)),
        variant_field("features"@) == Some(VariantField::Plain(Kind::OptionalTextList)),
        variant_field("workspace"@) == Some(VariantField::Plain(Kind::Flag)),
        variant_field("workspace_excludes"@) == Some(VariantField::Plain(Kind::TextList)),
        variant_field("global_defaults"@) == Some(VariantField::Plain(Kind::OptionalText)),
        variant_field("apex_available"@) == Some(VariantField::Plain(Kind::TextList)),
        variant_field("product_available"@) == Some(VariantField::Plain(Kind::Flag)),
        variant_field("vendor_available"@) == Some(VariantField::Plain(Kind::Flag)),
        variant_field("min_sdk_version"@) == Some(VariantField::Plain(Kind::OptionalText)),
        variant_field("module_name_overrides"@) == Some(VariantField::Plain(Kind::TextTable)),
        variant_field("package"@) == Some(VariantField::Packages),
        variant_field("cfg_blocklist"@) == Some(VariantField::Plain(Kind::TextList)),
        variant_field("module_blocklist"@) == Some(VariantField::Plain(Kind::TextList)),
        variant_field("module_visibility"@) == Some(VariantField::Plain(Kind::TextListTable)),
        variant_field("run_cargo"@) == Some(VariantField::Plain(Kind::Flag)),
{
    lemma_variant_names_differ(VariantConfigView::initial());
    let slots = variant_slots(VariantConfigView::initial());
    assert(slots[0].0 == "tests"@);
    assert(slots[1].0 == "features"@);
    assert(slots[2].0 == "workspace"@);
    assert(slots[3].0 == "workspace_excludes"@);
    assert(slots[4].0 == "global_defaults"@);
    assert(slots[5].0 == "apex_available"@);
    assert(slots[6].0 == "product_available"@);
    assert(slots[7].0 == "vendor_available"@);
    assert(slots[8].0 == "min_sdk_version"@);
    assert(slots[9].0 == "module_name_overrides"@);
    assert(slots[10].0 == "package"@);
    assert(slots[11].0 == "cfg_blocklist"@);
    assert(slots[12].0 == "module_blocklist"@);
    assert(slots[13].0 == "module_visibility"@);
    assert(slots[14].0 == "run_cargo"@);
}

/// The options of a package within a variant are read back from their
/// document, and the document has no fault.
pub proof fn lemma_package_variant_round(options: PackageVariantConfigView, location: Seq<char>)
    requires
        options.ordered(),
    ensures
        package_variant_of(encoded_package_variant(options)) == options,
        plain_fault(Schema::PackageVariant, encoded_package_variant(options), location) is None,
{
    let slots = package_variant_slots(options);
    let fields = compact(slots);
    lemma_package_variant_names_differ(options);
    lemma_package_variant_fields();
    lemma_texts_round(options.dep_blocklist);
    lemma_list_table_round(options.test_data);
    lemma_slot(slots, 0);
    lemma_slot(slots, 1);
    lemma_slot(slots, 2);
    lemma_slot(slots, 3);
    lemma_slot(slots, 4);
    lemma_slot(slots, 5);
    lemma_slot(slots, 6);
    lemma_slot(slots, 7);
    lemma_slot(slots, 8);
    lemma_slot(slots, 9);
    lemma_slot(slots, 10);
    let back = package_variant_of(JsonValue::Object(fields));
    assert(back.dep_blocklist =~= options.dep_blocklist);
    assert(back.test_data =~= options.test_data);
    assert(back == options);
    assert forall|k: int| 0 <= k < slots.len() implies slot_fits(
        Schema::PackageVariant,
        #[trigger] slots[k],
    ) by {}
    lemma_plain_slots_faultless(Schema::PackageVariant, slots, location);
}

/// The options of a package are read back from their document, and the
/// document has no fault.
pub proof fn lemma_package_round(options: PackageConfigView, location: Seq<char>)
    ensures
        package_of(encoded_package(options)) == options,
        plain_fault(Schema::Package, encoded_package(options), location) is None,
        forall|i: int|
            0 <= i < members_of(encoded_package(options)).len() ==> package_fields().contains(
                (#[trigger] members_of(encoded_package(options))[i]).0,
            ),
{
    let slots = package_slots(options);
    let fields = compact(slots);
    lemma_package_names_differ(options);
    lemma_slot(slots, 0);
    lemma_slot(slots, 1);
    assert(slots[0].0 == "add_toplevel_block"@);
    assert(slots[1].0 == "patch"@);
    assert forall|k: int| 0 <= k < slots.len() implies slot_fits(
        Schema::Package,
        #[trigger] slots[k],
    ) by {}
    lemma_plain_slots_faultless(Schema::Package, slots, location);
    assert forall|i: int| 0 <= i < fields.len() implies package_fields().contains(
        (#[trigger] fields[i]).0,
    ) by {
        lemma_compact_member(slots, i);
        lemma_first_at(slots, fields[i].0);
        let k = first_at(slots, fields[i].0);
        assert(package_fields()[0] == "add_toplevel_block"@);
        assert(package_fields()[1] == "patch"@);
        assert(fields[i].0 == slots[k].0);
    }
}

/// The package options of a variant are read back from their object, and the
/// object has no fault.
pub proof fn lemma_package_variant_table_round(
    table: Seq<(Seq<char>, PackageVariantConfigView)>,
    path: Seq<char>,
)
    requires
        keys_ascend(table),
        forall|i: int| 0 <= i < table.len() ==> (#[trigger] table[i]).1.ordered(),
    ensures
        package_variant_table_from(members_of(package_variant_table_object(table))) == table,
        table_fault(Schema::PackageVariant, package_variant_table_object(table), path) is None,
{
    let members = members_of(package_variant_table_object(table));
    assert forall|i: int| 0 <= i < table.len() implies (#[trigger] members[i]).0 == table[i].0
        && as_package_variant()(members[i].1) == table[i].1 by {
        assert(table[i].1.ordered());
        lemma_package_variant_round(table[i].1, path);
    }
    lemma_table_from_ascending(members, as_package_variant(), table);
    assert forall|m: int| 0 <= m < members.len() implies #[trigger] plain_fault(
        Schema::PackageVariant,
        members[m].1,
        joined(path, members[m].0),
    ) is None by {
        assert(table[m].1.ordered());
        lemma_package_variant_round(table[m].1, joined(path, members[m].0));
    }
    lemma_table_fault_none(Schema::PackageVariant, members, members.len() as int, path);
}

/// The package options of a configuration are read back from their object,
/// and the object has no fault.
pub proof fn lemma_package_table_round(table: Seq<(Seq<char>, PackageConfigView)>, path: Seq<char>)
    requires
        keys_ascend(table),
    ensures
        package_table_from(members_of(package_table_object(table))) == table,
        table_fault(Schema::Package, package_table_object(table), path) is None,
{
    let members = members_of(package_table_object(table));
    assert forall|i: int| 0 <= i < table.len() implies (#[trigger] members[i]).0 == table[i].0
        && as_package()(members[i].1) == table[i].1 by {
        lemma_package_round(table[i].1, path);
    }
    lemma_table_from_ascending(members, as_package(), table);
    assert forall|m: int| 0 <= m < members.len() implies #[trigger] plain_fault(
        Schema::Package,
        members[m].1,
        joined(path, members[m].0),
    ) is None by {
        lemma_package_round(table[m].1, joined(path, members[m].0));
    }
    lemma_table_fault_none(Schema::Package, members, members.len() as int, path);
}

/// Whether what a field of a variant writes, if anything, fits the field.
pub open spec fn variant_slot_fits(slot: Slot, path: Seq<char>) -> bool {
    slot.1 matches Some(value) ==> match variant_field(slot.0) {
        Some(VariantField::Plain(kind)) => fits(value, kind),
        Some(VariantField::Packages) => table_fault(Schema::PackageVariant, value, path) is None,
        None => false,
    }
}

/// A variant is read back from its document, and the document has no fault.
pub proof fn lemma_variant_round(options: VariantConfigView, location: Seq<char>)
    requires
        options.ordered(),
    ensures
        variant_of(encoded_variant(options)) == options,
        variant_fault(encoded_variant(options), location) is None,
{
    let slots = variant_slots(options);
    let fields = compact(slots);
    let path = joined(location, "package"@);
    lemma_variant_names_differ(options);
    lemma_variant_fields();
    lemma_texts_round(options.workspace_excludes);
    lemma_texts_round(options.apex_available);
    lemma_texts_round(options.cfg_blocklist);
    lemma_texts_round(options.module_blocklist);
    if options.features is Some {
        lemma_texts_round(options.features->0);
    }
    lemma_text_table_round(options.module_name_overrides);
    lemma_list_table_round(options.module_visibility);
    lemma_package_variant_table_round(options.package, path);
    lemma_slot(slots, 0);
    lemma_slot(slots, 1);
    lemma_slot(slots, 2);
    lemma_slot(slots, 3);
    lemma_slot(slots, 4);
    lemma_slot(slots, 5);
    lemma_slot(slots, 6);
    lemma_slot(slots, 7);
    lemma_slot(slots, 8);
    lemma_slot(slots, 9);
    lemma_slot(slots, 10);
    lemma_slot(slots, 11);
    lemma_slot(slots, 12);
    lemma_slot(slots, 13);
    lemma_slot(slots, 14);
    let back = variant_of(JsonValue::Object(fields));
    assert(back.features == options.features);
    assert(back.workspace_excludes =~= options.workspace_excludes);
    assert(back.apex_available =~= options.apex_available);
    assert(back.cfg_blocklist =~= options.cfg_blocklist);
    assert(back.module_blocklist =~= options.module_blocklist);
    assert(back.module_name_overrides =~= options.module_name_overrides);
    assert(back.module_visibility =~= options.module_visibility);
    assert(back.package =~= options.package);
    assert(back == options);
    assert forall|k: int| 0 <= k < slots.len() implies variant_slot_fits(
        #[trigger] slots[k],
        joined(location, slots[k].0),
    ) by {}
    assert forall|m: int| 0 <= m < fields.len() implies #[trigger] variant_member_fault(
        fields,
        m,
        location,
    ) is None by {
        lemma_compact_member(slots, m);
        lemma_first_at(slots, fields[m].0);
        let k = first_at(slots, fields[m].0);
        assert(variant_slot_fits(slots[k], joined(location, slots[k].0)));
    }
    lemma_variant_fault_none(fields, fields.len() as int, location);
}

/// Whether every variant says something of every package of which the
/// configuration says something.
pub open spec fn covered(options: ConfigView) -> bool {
    forall|i: int, j: int|
        0 <= i < options.variants.len() && 0 <= j < options.package.len() ==> has_key(
            (#[trigger] options.variants[i]).package,
            (#[trigger] options.package[j]).0,
        )
}

/// The member of the document of a configuration that lists its variants.
pub open spec fn variants_member(options: ConfigView) -> (Seq<char>, JsonValue) {
    ("variants"@, encoded_variants(options.variants))
}

/// The members of the document of a configuration that state its packages:
/// one, or none where it has no packages.
pub open spec fn package_members(options: ConfigView) -> Members {
    if options.package.len() == 0 {
        Seq::empty()
    } else {
        seq![("package"@, package_table_object(options.package))]
    }
}

/// The document of a configuration holds its variants, then its packages.
pub proof fn lemma_encoded_members(options: ConfigView)
    ensures
        encoded(options) == JsonValue::Object(
            seq![variants_member(options)] + package_members(options),
        ),
{
    reveal_with_fuel(compact, 3);
    let slots = config_slots(options);
    assert(slots.drop_last() =~= seq![slots[0]]);
    assert(slots.drop_last().drop_last() =~= Seq::empty());
    assert(compact(slots) =~= seq![variants_member(options)] + package_members(options));
}

/// Laying the packages of a configuration under the packages of a variant
/// that says something of each of them changes nothing.
pub proof fn lemma_round_fanned(
    local: Seq<(Seq<char>, PackageVariantConfigView)>,
    global: Seq<(Seq<char>, PackageConfigView)>,
    count: int,
    location: Seq<char>,
)
    requires
        0 <= count <= global.len(),
        forall|j: int| 0 <= j < global.len() ==> has_key(local, (#[trigger] global[j]).0),
    ensures
        fanned_packages(
            members_of(package_variant_table_object(local)),
            members_of(package_table_object(global)).take(count),
            location,
        ) == Ok::<Members, ConfigErrorView>(members_of(package_variant_table_object(local))),
    decreases count,
{
    let own = members_of(package_variant_table_object(local));
    let shared = members_of(package_table_object(global));
    if count > 0 {
        lemma_round_fanned(local, global, count - 1, location);
        assert(shared.take(count).drop_last() =~= shared.take(count - 1));
        let last = shared.take(count).last();
        assert(last == shared[count - 1]);
        let name = global[count - 1].0;
        assert(last.0 == name);
        assert(has_key(local, name));
        assert forall|i: int| 0 <= i < local.len() implies (#[trigger] local[i]).0 == own[i].0 by {}
        lemma_first_at_same_names(local, own, name);
        lemma_first_at(own, name);
        let f = first_at(own, name);
        let entry = members_of(own[f].1);
        lemma_package_round(global[count - 1].1, location);
        lemma_with_defaults_nothing(entry, members_of(last.1), package_fields());
        lemma_with_value_nothing(own, name, own[f].1);
        assert(with_slot(own, name) == own);
    } else {
        assert(shared.take(0) =~= Seq::empty());
    }
}

/// Filling the document of a variant of a covered configuration with the
/// packages of the configuration changes nothing.
pub proof fn lemma_round_filled(options: ConfigView, i: int, location: Seq<char>)
    requires
        options.ordered(),
        covered(options),
        0 <= i < options.variants.len(),
    ensures
        filled_variant(package_members(options), encoded_variant(options.variants[i]), location)
            == Ok::<JsonValue, ConfigErrorView>(encoded_variant(options.variants[i])),
{
    reveal_strlit("variants");
    reveal_strlit("package");
    let variant = options.variants[i];
    let rest = package_members(options);
    let slots = variant_slots(variant);
    let own = compact(slots);
    assert(config_fields()[0] == "package"@);
    assert forall|k: int| 0 <= k < rest.len() implies config_fields().contains(
        (#[trigger] rest[k]).0,
    ) || has_key(own, rest[k].0) by {}
    lemma_with_defaults_nothing(own, rest, config_fields());
    lemma_first_at(rest, "package"@);
    if options.package.len() > 0 {
        lemma_first_at_is(rest, "package"@, 0);
        assert(has_key(variant.package, options.package[0].0));
        lemma_first_at(variant.package, options.package[0].0);
        lemma_variant_names_differ(variant);
        lemma_slot(slots, 10);
        assert(slots[10].0 == "package"@);
        let local = package_variant_table_object(variant.package);
        assert(lookup(own, "package"@) == Some(local));
        lemma_first_at(own, "package"@);
        assert(with_slot(own, "package"@) == own);
        let global = members_of(package_table_object(options.package));
        let path = joined(location, "package"@);
        assert forall|j: int| 0 <= j < options.package.len() implies has_key(
            variant.package,
            (#[trigger] options.package[j]).0,
        ) by {}
        lemma_round_fanned(variant.package, options.package, options.package.len() as int, path);
        assert(global.take(options.package.len() as int) =~= global);
        lemma_with_value_nothing(own, "package"@, local);
    } else {
        lemma_first_at_is(rest, "package"@, 0);
    }
}

/// Filling the documents of the variants of a covered configuration changes
/// nothing.
pub proof fn lemma_round_filled_all(options: ConfigView, count: int)
    requires
        options.ordered(),
        covered(options),
        0 <= count <= options.variants.len(),
    ensures
        filled_variants(
            package_members(options),
            encoded_variants(options.variants)->Array_0.take(count),
        ) == Ok::<Seq<JsonValue>, ConfigErrorView>(
            encoded_variants(options.variants)->Array_0.take(count),
        ),
    decreases count,
{
    let all = encoded_variants(options.variants)->Array_0;
    if count > 0 {
        lemma_round_filled_all(options, count - 1);
        assert(all.take(count).drop_last() =~= all.take(count - 1));
        assert(all.take(count).last() == all[count - 1]);
        lemma_round_filled(options, count - 1, indexed("variants"@, (count - 1) as nat));
        assert(all.take(count - 1).push(all[count - 1]) =~= all.take(count));
    } else {
        assert(all.take(0) =~= Seq::empty());
    }
}

/// Pruning the packages of the document of a configuration changes nothing.
pub proof fn lemma_round_pruned(table: Seq<(Seq<char>, PackageConfigView)>, count: int)
    requires
        0 <= count <= table.len(),
    ensures
        pruned_packages(members_of(package_table_object(table)).take(count)) == Ok::<
            Members,
            ConfigErrorView,
        >(members_of(package_table_object(table)).take(count)),
    decreases count,
{
    let all = members_of(package_table_object(table));
    if count > 0 {
        lemma_round_pruned(table, count - 1);
        assert(all.take(count).drop_last() =~= all.take(count - 1));
        assert(all.take(count).last() == all[count - 1]);
        lemma_package_round(table[count - 1].1, Seq::empty());
        lemma_retained_all(members_of(all[count - 1].1), package_fields());
        assert(all.take(count - 1).push(all[count - 1]) =~= all.take(count));
    } else {
        assert(all.take(0) =~= Seq::empty());
    }
}

/// The document of a covered configuration, layered, holds the same packages
/// and the same variants.
pub proof fn lemma_round_layered(options: ConfigView)
    requires
        options.ordered(),
        covered(options),
    ensures
        layered(encoded(options)) == Ok::<JsonValue, ConfigErrorView>(
            JsonValue::Object(package_members(options).push(variants_member(options))),
        ),
{
    reveal_strlit("variants");
    reveal_strlit("package");
    lemma_encoded_members(options);
    let lead = variants_member(options);
    let rest = package_members(options);
    let top = seq![lead] + rest;
    let variants = encoded_variants(options.variants)->Array_0;
    lemma_first_at_is(top, "variants"@, 0);
    assert(listed_variants(top) == Ok::<Seq<JsonValue>, ConfigErrorView>(variants));
    reveal_with_fuel(without, 3);
    if options.package.len() > 0 {
        assert(top.drop_last() =~= seq![lead]);
        assert(seq![lead].drop_last() =~= Seq::empty());
    } else {
        assert(top.drop_last() =~= Seq::empty());
    }
    assert(without(top, "variants"@) =~= rest);
    lemma_round_filled_all(options, options.variants.len() as int);
    assert(variants.take(options.variants.len() as int) =~= variants);
    assert(config_fields()[0] == "package"@);
    assert forall|k: int| 0 <= k < rest.len() implies config_fields().contains(
        (#[trigger] rest[k]).0,
    ) by {}
    lemma_retained_all(rest, config_fields());
    lemma_first_at(rest, "package"@);
    if options.package.len() > 0 {
        lemma_first_at_is(rest, "package"@, 0);
        let packages = members_of(package_table_object(options.package));
        lemma_round_pruned(options.package, options.package.len() as int);
        assert(packages.take(options.package.len() as int) =~= packages);
        lemma_with_value_nothing(rest, "package"@, package_table_object(options.package));
    } else {
        lemma_first_at_is(rest, "package"@, 0);
    }
}

/// The layered document of a configuration is read back as the configuration.
pub proof fn lemma_round_decoded(options: ConfigView)
    requires
        options.ordered(),
    ensures
        decoded(JsonValue::Object(package_members(options).push(variants_member(options)))) == Ok::<
            ConfigView,
            ConfigErrorView,
        >(options),
{
    reveal_strlit("variants");
    reveal_strlit("package");
    let lead = variants_member(options);
    let rest = package_members(options);
    let full = rest.push(lead);
    let variants = encoded_variants(options.variants)->Array_0;
    let at = rest.len() as int;
    assert(full[at] == lead);
    assert forall|j: int| 0 <= j < at implies (#[trigger] full[j]).0 != "variants"@ by {}
    lemma_first_at_is(full, "variants"@, at);
    assert forall|m: int| 0 <= m < variants.len() implies #[trigger] variant_fault(
        variants[m],
        indexed("variants"@, m as nat),
    ) is None by {
        assert(options.variants[m].ordered());
        lemma_variant_round(options.variants[m], indexed("variants"@, m as nat));
    }
    lemma_variants_fault_none(variants, variants.len() as int);
    assert(variants_fault(lead.1) is None);
    if options.package.len() > 0 {
        lemma_first_at_is(full, "package"@, 0);
        lemma_package_table_round(options.package, "package"@);
    } else {
        lemma_first_at_is(full, "package"@, 1);
        assert(package_table_from(Seq::empty()) =~= options.package);
    }
    assert forall|m: int| 0 <= m < full.len() implies #[trigger] config_member_fault(full, m) is None by {}
    lemma_config_fault_none(full, full.len() as int);
    let back = config_of(JsonValue::Object(full));
    assert forall|m: int| 0 <= m < variants.len() implies variant_of(#[trigger] variants[m])
        == options.variants[m] by {
        assert(options.variants[m].ordered());
        lemma_variant_round(options.variants[m], Seq::empty());
    }
    assert(back.variants =~= options.variants);
    assert(back.package =~= options.package);
}

/// A configuration is resolved from the document that states it,
/// where every variant says something of every package of which the
/// configuration says something: a variant that says nothing of such a
/// package comes back with the defaults for it.
pub proof fn law_round_trip(options: ConfigView)
    requires
        options.ordered(),
        covered(options),
    ensures
        resolved(encoded(options)) == Ok::<ConfigView, ConfigErrorView>(options),
{
    lemma_round_layered(options);
    lemma_round_decoded(options);
}

} // verus!
