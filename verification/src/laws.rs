//! What holds of the resolution of every document.

use crate::decode::{members_of, value_of, variant_of};
use crate::error::ConfigErrorView;
use crate::faults::{
    lemma_config_fault_found, lemma_plain_fault_found, lemma_table_fault_found,
    lemma_variant_fault_found, lemma_variants_fault_found,
};
use crate::filling::{
    entry_of, lemma_fanned_packages, lemma_fanned_packages_once, lemma_filled_variant,
    lemma_filled_variants, lemma_retained_lookup, lemma_with_defaults_lookup,
    lemma_with_value_lookup, lemma_without_lookup, packages_of,
};
use crate::json::{JsonValue, Members};
use crate::layering::{
    config_fields, fanned_packages, filled_variant, filled_variants, layered, listed_variants,
    package_fields, pruned, pruned_packages, retained, without,
};
use crate::resolve::resolved;
use crate::schema::{plain_field, variant_field, Schema, VariantField};
use crate::table::{
    first_at, has_key, lemma_first_at, lemma_first_at_push, lemma_lookup_push, lookup,
};
use crate::text::{indexed, joined};
use crate::validate::{
    config_member_fault, plain_fault, plain_member_fault, table_fault, variant_fault,
    variant_member_fault,
};
use vstd::prelude::*;

verus! {

/// The variants of a document as it lists them: one that says nothing where it
/// lists none, and none where the list is no array.
pub open spec fn stated_variants(top: Members) -> Seq<JsonValue> {
    match listed_variants(top) {
        Ok(variants) => variants,
        Err(_) => Seq::empty(),
    }
}

/// The variants of a document once they are filled; none where the document
/// cannot be layered.
pub open spec fn layered_variants(top: Members) -> Seq<JsonValue> {
    match layered(JsonValue::Object(top)) {
        Ok(full) => match value_of(members_of(full), "variants"@) {
            JsonValue::Array(variants) => variants,
            _ => Seq::empty(),
        },
        Err(_) => Seq::empty(),
    }
}

/// The layered document lists the filled variants, one for each variant of
/// the document and in their order, and keeps the packages of the document.
pub proof fn lemma_layered(top: Members)
    requires
        layered(JsonValue::Object(top)) is Ok,
    ensures
        listed_variants(top) is Ok,
        filled_variants(without(top, "variants"@), stated_variants(top)) == Ok::<
            Seq<JsonValue>,
            ConfigErrorView,
        >(layered_variants(top)),
        layered_variants(top).len() == stated_variants(top).len(),
        layered(JsonValue::Object(top))->Ok_0 is Object,
        ({
            let full = members_of(layered(JsonValue::Object(top))->Ok_0);
            &&& full.len() > 0
            &&& full.last() == ("variants"@, JsonValue::Array(layered_variants(top)))
            &&& first_at(full, "variants"@) == full.len() - 1
        }),
        forall|key: Seq<char>|
            key != "variants"@ ==> #[trigger] lookup(without(top, "variants"@), key) == lookup(
                top,
                key,
            ),
{
    reveal_strlit("variants");
    reveal_strlit("package");
    let rest = without(top, "variants"@);
    let variants = stated_variants(top);
    let filled = filled_variants(rest, variants)->Ok_0;
    let kept = pruned(rest)->Ok_0;
    let slim = retained(rest, config_fields());
    lemma_retained_lookup(rest, config_fields(), "variants"@);
    assert(config_fields()[0] == "package"@);
    assert(!config_fields().contains("variants"@));
    lemma_first_at(slim, "package"@);
    lemma_first_at(slim, "variants"@);
    if has_key(slim, "package"@) {
        let packages = lookup(slim, "package"@)->Some_0;
        lemma_with_value_lookup(
            slim,
            "package"@,
            JsonValue::Object(pruned_packages(members_of(packages))->Ok_0),
            "variants"@,
        );
    }
    assert(lookup(kept, "variants"@) is None);
    let entry = ("variants"@, JsonValue::Array(filled));
    lemma_lookup_push(kept, entry, "variants"@);
    lemma_first_at_push(kept, entry, "variants"@);
    lemma_first_at(kept, "variants"@);
    if variants.len() > 0 {
        lemma_filled_variants(rest, variants, 0);
    } else {
        assert(filled.len() == 0);
    }
    assert forall|key: Seq<char>| key != "variants"@ implies #[trigger] lookup(rest, key) == lookup(
        top,
        key,
    ) by {
        lemma_without_lookup(top, "variants"@, key);
    }
}

/// Each filled variant of a document that can be layered is the variant of
/// the document, filled with the document but its variants.
pub proof fn lemma_layered_variant(top: Members, i: int)
    requires
        layered(JsonValue::Object(top)) is Ok,
        0 <= i < stated_variants(top).len(),
    ensures
        stated_variants(top)[i] is Object,
        layered_variants(top)[i] is Object,
        filled_variant(
            without(top, "variants"@),
            JsonValue::Object(members_of(stated_variants(top)[i])),
            indexed("variants"@, i as nat),
        ) == Ok::<JsonValue, ConfigErrorView>(layered_variants(top)[i]),
{
    lemma_layered(top);
    let rest = without(top, "variants"@);
    lemma_filled_variants(rest, stated_variants(top), i);
    let own = members_of(stated_variants(top)[i]);
    lemma_filled_variant(rest, own, indexed("variants"@, i as nat), "package"@);
}

/// A document whose filled variants include a faulty one is refused.
pub proof fn lemma_faulty_variant_refused(top: Members, i: int)
    requires
        layered(JsonValue::Object(top)) is Ok,
        0 <= i < layered_variants(top).len(),
        variant_fault(layered_variants(top)[i], indexed("variants"@, i as nat)) is Some,
    ensures
        resolved(JsonValue::Object(top)) is Err,
{
    lemma_layered(top);
    let full = members_of(layered(JsonValue::Object(top))->Ok_0);
    let variants = layered_variants(top);
    lemma_variants_fault_found(variants, variants.len() as int, i);
    let at = full.len() - 1;
    assert(full[at] == full.last());
    assert(config_member_fault(full, at) is Some);
    lemma_config_fault_found(full, full.len() as int, at);
}

/// In a document that can be layered, what a variant
/// says under a name stays, and what it leaves out is taken from the top level
/// of the document. This holds of every name but `package` and `variants`,
/// which are no options of a variant. The variants of the configuration are
/// those that the filled variants state, in their order.
pub proof fn law_defaulting_precedence(top: Members, i: int, key: Seq<char>)
    requires
        layered(JsonValue::Object(top)) is Ok,
        0 <= i < stated_variants(top).len(),
        key != "package"@,
        key != "variants"@,
    ensures
        layered_variants(top).len() == stated_variants(top).len(),
        ({
            let own = members_of(stated_variants(top)[i]);
            let filled = members_of(layered_variants(top)[i]);
            lookup(filled, key) == if has_key(own, key) {
                lookup(own, key)
            } else {
                lookup(top, key)
            }
        }),
        resolved(JsonValue::Object(top)) matches Ok(options) ==> options.variants.len()
            == stated_variants(top).len() && options.variants[i] == variant_of(
            layered_variants(top)[i],
        ),
{
    lemma_layered(top);
    lemma_layered_variant(top, i);
    let rest = without(top, "variants"@);
    let own = members_of(stated_variants(top)[i]);
    lemma_filled_variant(rest, own, indexed("variants"@, i as nat), key);
    assert(lookup(rest, key) == lookup(top, key));
    let full = members_of(layered(JsonValue::Object(top))->Ok_0);
    lemma_first_at(full, "variants"@);
}

/// In a document that can be layered, a filled variant
/// holds a field that belongs to packages whatever the variant only where the
/// variant itself gave that field for the package: the document never hands
/// such a field down.
pub proof fn law_package_fields_stay_global(top: Members, i: int, name: Seq<char>, key: Seq<char>)
    requires
        layered(JsonValue::Object(top)) is Ok,
        0 <= i < stated_variants(top).len(),
        package_fields().contains(key),
    ensures
        ({
            let own = members_of(stated_variants(top)[i]);
            let filled = members_of(layered_variants(top)[i]);
            has_key(entry_of(packages_of(filled), name), key) ==> has_key(
                entry_of(packages_of(own), name),
                key,
            )
        }),
{
    lemma_layered(top);
    lemma_layered_variant(top, i);
    let rest = without(top, "variants"@);
    let own = members_of(stated_variants(top)[i]);
    let location = indexed("variants"@, i as nat);
    lemma_filled_variant(rest, own, location, "package"@);
    lemma_first_at(rest, "package"@);
    if has_key(rest, "package"@) {
        lemma_fanned_packages(
            packages_of(own),
            packages_of(rest),
            joined(location, "package"@),
            name,
        );
    }
}

/// In a document that can be layered and
/// that names each of its packages once: for a package that the document
/// names, a filled variant holds under each name what the variant itself says
/// of the package, and else what the document says of it; this holds of every
/// name but those of the fields that belong to packages whatever the variant.
/// What a variant says of a package that the document does not name stays as
/// it is.
pub proof fn law_package_override_precedence(top: Members, i: int, name: Seq<char>, key: Seq<char>)
    requires
        layered(JsonValue::Object(top)) is Ok,
        0 <= i < stated_variants(top).len(),
        !package_fields().contains(key),
        forall|a: int, b: int|
            0 <= a < b < packages_of(top).len() ==> (#[trigger] packages_of(top)[a]).0 != (
            #[trigger] packages_of(top)[b]).0,
    ensures
        ({
            let own = members_of(stated_variants(top)[i]);
            let filled = members_of(layered_variants(top)[i]);
            &&& has_key(packages_of(top), name) ==> lookup(
                entry_of(packages_of(filled), name),
                key,
            ) == if has_key(entry_of(packages_of(own), name), key) {
                lookup(entry_of(packages_of(own), name), key)
            } else {
                lookup(entry_of(packages_of(top), name), key)
            }
            &&& !has_key(packages_of(top), name) ==> lookup(packages_of(filled), name) == lookup(
                packages_of(own),
                name,
            )
        }),
{
    reveal_strlit("variants");
    reveal_strlit("package");
    lemma_layered(top);
    lemma_layered_variant(top, i);
    let rest = without(top, "variants"@);
    let own = members_of(stated_variants(top)[i]);
    let location = indexed("variants"@, i as nat);
    lemma_filled_variant(rest, own, location, "package"@);
    lemma_first_at(rest, "package"@);
    lemma_first_at(top, "package"@);
    assert(lookup(rest, "package"@) == lookup(top, "package"@));
    assert(packages_of(rest) == packages_of(top));
    lemma_first_at(packages_of(top), name);
    if has_key(rest, "package"@) {
        lemma_fanned_packages(
            packages_of(own),
            packages_of(rest),
            joined(location, "package"@),
            name,
        );
        if has_key(packages_of(top), name) {
            lemma_fanned_packages_once(
                packages_of(own),
                packages_of(rest),
                joined(location, "package"@),
                name,
            );
            lemma_with_defaults_lookup(
                entry_of(packages_of(own), name),
                entry_of(packages_of(top), name),
                package_fields(),
                key,
            );
        }
    }
}

/// A document that lists no variants resolves as the
/// same document with one variant that says nothing: to a configuration with
/// one variant, which holds under each name what the top level of the
/// document holds there.
pub proof fn law_no_variants_is_one_variant(top: Members)
    requires
        !has_key(top, "variants"@),
    ensures
        resolved(JsonValue::Object(top)) == resolved(
            JsonValue::Object(
                top.push(("variants"@, JsonValue::Array(seq![JsonValue::Object(Seq::empty())]))),
            ),
        ),
        resolved(JsonValue::Object(top)) matches Ok(options) ==> options.variants.len() == 1,
        layered(JsonValue::Object(top)) is Ok ==> layered_variants(top).len() == 1 && forall|
            key: Seq<char>,
        |
            key != "package"@ && key != "variants"@ ==> #[trigger] lookup(
                members_of(layered_variants(top)[0]),
                key,
            ) == lookup(top, key),
        layered(JsonValue::Object(top)) is Ok && !has_key(top, "package"@) ==> !has_key(
            members_of(layered_variants(top)[0]),
            "package"@,
        ),
        layered(JsonValue::Object(top)) is Ok && has_key(top, "package"@) ==> fanned_packages(
            Seq::empty(),
            packages_of(top),
            joined(indexed("variants"@, 0), "package"@),
        ) == Ok::<Members, ConfigErrorView>(packages_of(members_of(layered_variants(top)[0]))),
{
    reveal_strlit("variants");
    reveal_strlit("package");
    let single = JsonValue::Array(seq![JsonValue::Object(Seq::empty())]);
    let entry = ("variants"@, single);
    let more = top.push(entry);
    lemma_lookup_push(top, entry, "variants"@);
    lemma_first_at(top, "variants"@);
    assert(more.drop_last() =~= top);
    assert(without(more, "variants"@) == without(top, "variants"@));
    assert(layered(JsonValue::Object(top)) == layered(JsonValue::Object(more)));
    if layered(JsonValue::Object(top)) is Ok {
        lemma_layered(top);
        assert forall|key: Seq<char>| key != "package"@ && key != "variants"@ implies #[trigger] lookup(
            members_of(layered_variants(top)[0]),
            key,
        ) == lookup(top, key) by {
            law_defaulting_precedence(top, 0, key);
            lemma_first_at(Seq::<(Seq<char>, JsonValue)>::empty(), key);
        }
        let full = members_of(layered(JsonValue::Object(top))->Ok_0);
        lemma_first_at(full, "variants"@);
        let rest = without(top, "variants"@);
        let none = Seq::<(Seq<char>, JsonValue)>::empty();
        lemma_layered_variant(top, 0);
        lemma_filled_variant(rest, none, indexed("variants"@, 0), "package"@);
        lemma_first_at(none, "package"@);
        lemma_first_at(top, "package"@);
        lemma_first_at(rest, "package"@);
        assert(lookup(rest, "package"@) == lookup(top, "package"@));
        assert(packages_of(rest) == packages_of(top));
        assert(packages_of(none) == none);
    }
}

/// A document with a variant that
/// holds a name that is no field of a variant is refused.
pub proof fn law_unknown_variant_field_refused(top: Members, i: int, key: Seq<char>)
    requires
        0 <= i < stated_variants(top).len(),
        has_key(members_of(stated_variants(top)[i]), key),
        variant_field(key) is None,
    ensures
        resolved(JsonValue::Object(top)) is Err,
{
    if layered(JsonValue::Object(top)) is Ok {
        lemma_layered(top);
        lemma_layered_variant(top, i);
        let rest = without(top, "variants"@);
        let own = members_of(stated_variants(top)[i]);
        let location = indexed("variants"@, i as nat);
        lemma_filled_variant(rest, own, location, key);
        let filled = members_of(layered_variants(top)[i]);
        lemma_first_at(filled, key);
        let at = first_at(filled, key);
        assert(variant_member_fault(filled, at, location) is Some);
        lemma_variant_fault_found(filled, filled.len() as int, location, at);
        lemma_faulty_variant_refused(top, i);
    }
}

/// A document that holds at its
/// top level a name that is no field of the top level and no field of a
/// variant is refused, unless it lists its variants and lists none.
pub proof fn law_unknown_top_field_refused(top: Members, key: Seq<char>)
    requires
        stated_variants(top).len() > 0,
        has_key(top, key),
        key != "variants"@,
        key != "package"@,
        variant_field(key) is None,
    ensures
        resolved(JsonValue::Object(top)) is Err,
{
    if layered(JsonValue::Object(top)) is Ok {
        lemma_layered(top);
        lemma_layered_variant(top, 0);
        let rest = without(top, "variants"@);
        let own = members_of(stated_variants(top)[0]);
        let location = indexed("variants"@, 0);
        lemma_filled_variant(rest, own, location, key);
        lemma_first_at(own, key);
        lemma_first_at(top, key);
        lemma_first_at(rest, key);
        let filled = members_of(layered_variants(top)[0]);
        lemma_first_at(filled, key);
        let at = first_at(filled, key);
        assert(variant_member_fault(filled, at, location) is Some);
        lemma_variant_fault_found(filled, filled.len() as int, location, at);
        lemma_faulty_variant_refused(top, 0);
    }
}

/// A variant whose packages include one that holds a name that is no field of
/// a package within a variant is faulty.
pub proof fn lemma_unknown_package_field_faulty(
    fields: Members,
    location: Seq<char>,
    name: Seq<char>,
    key: Seq<char>,
)
    requires
        has_key(entry_of(packages_of(fields), name), key),
        plain_field(Schema::PackageVariant, key) is None,
    ensures
        variant_fault(JsonValue::Object(fields), location) is Some,
{
    reveal_strlit("tests");
    reveal_strlit("features");
    reveal_strlit("workspace");
    reveal_strlit("workspace_excludes");
    reveal_strlit("global_defaults");
    reveal_strlit("apex_available");
    reveal_strlit("product_available");
    reveal_strlit("vendor_available");
    reveal_strlit("min_sdk_version");
    reveal_strlit("module_name_overrides");
    reveal_strlit("package");
    assert("package"@.len() == 7);
    assert("tests"@.len() == 5);
    assert("features"@.len() == 8);
    assert("workspace"@.len() == 9);
    assert("workspace_excludes"@.len() == 18);
    assert("global_defaults"@.len() == 15);
    assert("apex_available"@.len() == 14);
    assert("product_available"@.len() == 17);
    assert("vendor_available"@.len() == 16);
    assert("min_sdk_version"@.len() == 15);
    assert("module_name_overrides"@.len() == 21);
    assert(variant_field("package"@) == Some(VariantField::Packages));
    let packages = packages_of(fields);
    let entry = entry_of(packages, name);
    lemma_first_at(entry, key);
    lemma_first_at(packages, name);
    lemma_first_at(fields, "package"@);
    lemma_first_at(Seq::<(Seq<char>, JsonValue)>::empty(), key);
    lemma_first_at(Seq::<(Seq<char>, JsonValue)>::empty(), name);
    let at = first_at(fields, "package"@);
    let path = joined(location, "package"@);
    let inner = first_at(packages, name);
    let place = joined(path, name);
    let deep = first_at(entry, key);
    assert(plain_member_fault(Schema::PackageVariant, entry, deep, place) is Some);
    lemma_plain_fault_found(Schema::PackageVariant, entry, entry.len() as int, place, deep);
    assert(plain_fault(Schema::PackageVariant, packages[inner].1, place) is Some);
    lemma_table_fault_found(Schema::PackageVariant, packages, packages.len() as int, path, inner);
    assert(table_fault(Schema::PackageVariant, fields[at].1, path) is Some);
    assert(variant_member_fault(fields, at, location) is Some);
    lemma_variant_fault_found(fields, fields.len() as int, location, at);
}

/// A document with a
/// variant that holds, for one of its packages, a name that is no field of a
/// package within a variant is refused.
pub proof fn law_unknown_variant_package_field_refused(
    top: Members,
    i: int,
    name: Seq<char>,
    key: Seq<char>,
)
    requires
        0 <= i < stated_variants(top).len(),
        has_key(entry_of(packages_of(members_of(stated_variants(top)[i])), name), key),
        plain_field(Schema::PackageVariant, key) is None,
    ensures
        resolved(JsonValue::Object(top)) is Err,
{
    if layered(JsonValue::Object(top)) is Ok {
        lemma_layered(top);
        lemma_layered_variant(top, i);
        let rest = without(top, "variants"@);
        let own = members_of(stated_variants(top)[i]);
        let location = indexed("variants"@, i as nat);
        lemma_filled_variant(rest, own, location, "package"@);
        let filled = members_of(layered_variants(top)[i]);
        lemma_first_at(rest, "package"@);
        if has_key(rest, "package"@) {
            lemma_fanned_packages(
                packages_of(own),
                packages_of(rest),
                joined(location, "package"@),
                name,
            );
        }
        assert(has_key(entry_of(packages_of(filled), name), key));
        lemma_unknown_package_field_faulty(filled, location, name, key);
        lemma_faulty_variant_refused(top, i);
    }
}

/// A document that
/// holds, for one of its packages, a name that is neither a field of a
/// package nor a field of a package within a variant is refused, unless it
/// lists its variants and lists none.
pub proof fn law_unknown_package_field_refused(top: Members, name: Seq<char>, key: Seq<char>)
    requires
        stated_variants(top).len() > 0,
        has_key(entry_of(packages_of(top), name), key),
        !package_fields().contains(key),
        plain_field(Schema::PackageVariant, key) is None,
    ensures
        resolved(JsonValue::Object(top)) is Err,
{
    reveal_strlit("variants");
    reveal_strlit("package");
    if layered(JsonValue::Object(top)) is Ok {
        lemma_layered(top);
        lemma_layered_variant(top, 0);
        let rest = without(top, "variants"@);
        let own = members_of(stated_variants(top)[0]);
        let location = indexed("variants"@, 0);
        lemma_filled_variant(rest, own, location, "package"@);
        let filled = members_of(layered_variants(top)[0]);
        assert(lookup(rest, "package"@) == lookup(top, "package"@));
        assert(packages_of(rest) == packages_of(top));
        lemma_first_at(rest, "package"@);
        lemma_first_at(Seq::<(Seq<char>, JsonValue)>::empty(), key);
        lemma_first_at(Seq::<(Seq<char>, JsonValue)>::empty(), name);
        lemma_fanned_packages(
            packages_of(own),
            packages_of(rest),
            joined(location, "package"@),
            name,
        );
        assert(has_key(entry_of(packages_of(filled), name), key));
        lemma_unknown_package_field_faulty(filled, location, name, key);
        lemma_faulty_variant_refused(top, 0);
    }
}

} // verus!
