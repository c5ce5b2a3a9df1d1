//! What resolution gives is settled: written down and resolved again, it
//! comes back as it is.

use crate::config::PackageVariantConfigView;
use crate::decode::{
    as_package, as_package_variant, as_text, as_texts, config_of, members_of, table_from, value_of,
    variant_of,
};
use crate::encode::encoded;
use crate::filling::{
    lemma_fanned_packages, lemma_filled_variant, lemma_retained_lookup, lemma_with_value_lookup,
    packages_of,
};
use crate::json::{JsonValue, Members};
use crate::laws::{layered_variants, lemma_layered, lemma_layered_variant, stated_variants};
use crate::layering::{config_fields, layered, pruned, pruned_packages, retained, without};
use crate::resolve::resolved;
use crate::round_trip::{covered, law_round_trip};
use crate::table::{
    has_key, keys_ascend, lemma_first_at, lemma_first_at_same_names, lemma_inserted,
    lemma_lookup_push, lemma_rank, lookup, rank,
};
use crate::text::{indexed, joined};
use vstd::prelude::*;

verus! {

/// The table of members is ascending, and it binds the names of the members.
pub proof fn lemma_table_from<T>(members: Members, convert: spec_fn(JsonValue) -> T)
    ensures
        keys_ascend(table_from(members, convert)),
        forall|key: Seq<char>| #[trigger]
            has_key(table_from(members, convert), key) == has_key(members, key),
    decreases members.len(),
{
    let table = table_from(members, convert);
    if members.len() > 0 {
        let init = members.drop_last();
        let last = members.last();
        assert(members =~= init.push(last));
        lemma_table_from(init, convert);
        let prior = table_from(init, convert);
        lemma_inserted(prior, last.0, convert(last.1));
        assert forall|key: Seq<char>| #[trigger] has_key(table, key) == has_key(members, key) by {
            lemma_lookup_push(init, last, key);
            lemma_first_at(init, key);
            lemma_first_at(members, key);
            lemma_first_at(table, key);
            lemma_first_at(prior, key);
            assert(has_key(prior, key) == has_key(init, key));
            assert(lookup(table, key) == if key == last.0 {
                Some(convert(last.1))
            } else {
                lookup(prior, key)
            });
        }
    } else {
        assert forall|key: Seq<char>| #[trigger] has_key(table, key) == has_key(members, key) by {
            lemma_first_at(table, key);
            lemma_first_at(members, key);
        }
    }
}

/// What holds of every converted value holds of every value of the table.
pub proof fn lemma_table_from_all<T>(
    members: Members,
    convert: spec_fn(JsonValue) -> T,
    holds: spec_fn(T) -> bool,
)
    requires
        forall|value: JsonValue| #[trigger] holds(convert(value)),
    ensures
        forall|i: int|
            0 <= i < table_from(members, convert).len() ==> holds(
                (#[trigger] table_from(members, convert)[i]).1,
            ),
    decreases members.len(),
{
    if members.len() > 0 {
        let init = members.drop_last();
        let last = members.last();
        lemma_table_from_all(init, convert, holds);
        let prior = table_from(init, convert);
        let table = table_from(members, convert);
        lemma_rank(prior, last.0);
        let at = rank(prior, last.0);
        assert(holds(convert(last.1)));
        assert forall|i: int| 0 <= i < table.len() implies holds((#[trigger] table[i]).1) by {
            if at < prior.len() && prior[at].0 == last.0 {
                if i != at {
                    assert(table[i] == prior[i]);
                }
            } else {
                if i < at {
                    assert(table[i] == prior[i]);
                } else if i > at {
                    assert(table[i] == prior[i - 1]);
                }
            }
        }
    }
}

/// Whether the tables of the options of a package within a variant are
/// ascending.
pub open spec fn package_variant_ordered() -> spec_fn(PackageVariantConfigView) -> bool {
    |options: PackageVariantConfigView| options.ordered()
}

/// Every variant that a document states has ascending tables.
pub proof fn lemma_variant_of_ordered(value: JsonValue)
    ensures
        variant_of(value).ordered(),
{
    let fields = members_of(value);
    lemma_table_from(members_of(value_of(fields, "module_name_overrides"@)), as_text());
    lemma_table_from(members_of(value_of(fields, "module_visibility"@)), as_texts());
    lemma_table_from(members_of(value_of(fields, "package"@)), as_package_variant());
    assert forall|inner: JsonValue| #[trigger]
        package_variant_ordered()(as_package_variant()(inner)) by {
        lemma_table_from(members_of(value_of(members_of(inner), "test_data"@)), as_texts());
    }
    lemma_table_from_all(
        members_of(value_of(fields, "package"@)),
        as_package_variant(),
        package_variant_ordered(),
    );
    let table = variant_of(value).package;
    assert forall|i: int| 0 <= i < table.len() implies (#[trigger] table[i]).1.ordered() by {
        assert(package_variant_ordered()(table[i].1));
    }
}

/// Every configuration that a document states has ascending tables.
pub proof fn lemma_config_of_ordered(document: JsonValue)
    ensures
        config_of(document).ordered(),
{
    let fields = members_of(document);
    lemma_table_from(members_of(value_of(fields, "package"@)), as_package());
    let variants = config_of(document).variants;
    assert forall|i: int| 0 <= i < variants.len() implies (#[trigger] variants[i]).ordered() by {
        let items = value_of(fields, "variants"@)->Array_0;
        lemma_variant_of_ordered(items[i]);
    }
}

/// The pruned packages have the names of the packages, in their order.
pub proof fn lemma_pruned_packages_names(packages: Members)
    requires
        pruned_packages(packages) is Ok,
    ensures
        pruned_packages(packages)->Ok_0.len() == packages.len(),
        forall|j: int|
            0 <= j < packages.len() ==> (#[trigger] pruned_packages(packages)->Ok_0[j]).0
                == packages[j].0,
    decreases packages.len(),
{
    if packages.len() > 0 {
        let init = packages.drop_last();
        lemma_pruned_packages_names(init);
        let prior = pruned_packages(init)->Ok_0;
        let slim = pruned_packages(packages)->Ok_0;
        assert forall|j: int| 0 <= j < packages.len() implies (#[trigger] slim[j]).0
            == packages[j].0 by {
            if j < init.len() {
                assert(slim[j] == prior[j]);
                assert(init[j] == packages[j]);
            }
        }
    }
}

/// The layered document names no package that the document does not name.
pub proof fn lemma_layered_packages(top: Members, name: Seq<char>)
    requires
        layered(JsonValue::Object(top)) is Ok,
        has_key(packages_of(members_of(layered(JsonValue::Object(top))->Ok_0)), name),
    ensures
        has_key(packages_of(top), name),
        has_key(top, "package"@),
{
    reveal_strlit("variants");
    reveal_strlit("package");
    lemma_layered(top);
    let rest = without(top, "variants"@);
    let full = members_of(layered(JsonValue::Object(top))->Ok_0);
    let kept = pruned(rest)->Ok_0;
    let slim = retained(rest, config_fields());
    assert(config_fields()[0] == "package"@);
    assert(config_fields().contains("package"@));
    lemma_retained_lookup(rest, config_fields(), "package"@);
    assert(lookup(rest, "package"@) == lookup(top, "package"@));
    lemma_lookup_push(kept, full.last(), "package"@);
    assert(full =~= kept.push(full.last()));
    lemma_first_at(slim, "package"@);
    lemma_first_at(kept, "package"@);
    lemma_first_at(top, "package"@);
    lemma_first_at(Seq::<(Seq<char>, JsonValue)>::empty(), name);
    if has_key(slim, "package"@) {
        let global = members_of(lookup(slim, "package"@)->Some_0);
        let pruned_global = pruned_packages(global)->Ok_0;
        lemma_with_value_lookup(slim, "package"@, JsonValue::Object(pruned_global), "package"@);
        lemma_pruned_packages_names(global);
        assert(packages_of(full) == pruned_global);
        assert forall|j: int| 0 <= j < pruned_global.len() implies (#[trigger] pruned_global[j]).0
            == global[j].0 by {}
        lemma_first_at_same_names(pruned_global, global, name);
    }
}

/// Every configuration that resolution gives is covered: each of its
/// variants says something of each package of which it says something.
pub proof fn lemma_resolved_covered(top: Members)
    requires
        resolved(JsonValue::Object(top)) is Ok,
    ensures
        covered(resolved(JsonValue::Object(top))->Ok_0),
{
    reveal_strlit("variants");
    reveal_strlit("package");
    lemma_layered(top);
    let options = resolved(JsonValue::Object(top))->Ok_0;
    let full = members_of(layered(JsonValue::Object(top))->Ok_0);
    let rest = without(top, "variants"@);
    lemma_first_at(full, "variants"@);
    assert(options == config_of(JsonValue::Object(full)));
    assert forall|i: int, j: int|
        0 <= i < options.variants.len() && 0 <= j < options.package.len() implies has_key(
        (#[trigger] options.variants[i]).package,
        (#[trigger] options.package[j]).0,
    ) by {
        let name = options.package[j].0;
        lemma_first_at(options.package, name);
        assert(has_key(options.package, name));
        lemma_table_from(packages_of(full), as_package());
        assert(has_key(packages_of(full), name));
        lemma_layered_packages(top, name);
        lemma_layered_variant(top, i);
        let own = members_of(stated_variants(top)[i]);
        let location = indexed("variants"@, i as nat);
        lemma_filled_variant(rest, own, location, "package"@);
        assert(lookup(rest, "package"@) == lookup(top, "package"@));
        assert(packages_of(rest) == packages_of(top));
        lemma_first_at(rest, "package"@);
        lemma_first_at(top, "package"@);
        lemma_fanned_packages(
            packages_of(own),
            packages_of(rest),
            joined(location, "package"@),
            name,
        );
        let filled = members_of(layered_variants(top)[i]);
        lemma_first_at(packages_of(filled), name);
        lemma_table_from(packages_of(filled), as_package_variant());
        assert(options.variants[i] == variant_of(layered_variants(top)[i]));
    }
}

/// Resolution is settled. The configuration that a document resolves to is
/// resolved again from the document that states it.
pub proof fn law_resolution_is_settled(document: JsonValue)
    requires
        resolved(document) is Ok,
    ensures
        resolved(encoded(resolved(document)->Ok_0)) == resolved(document),
{
    let top = members_of(document);
    assert(document == JsonValue::Object(top));
    lemma_layered(top);
    let full = layered(document)->Ok_0;
    lemma_config_of_ordered(full);
    lemma_resolved_covered(top);
    law_round_trip(resolved(document)->Ok_0);
}

} // verus!
