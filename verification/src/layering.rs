//! From a layered document to a document in which every variant states all
//! that holds for it.
//!
//! What the document says at its top level holds for every variant that does
//! not say otherwise, and what it says of a package holds for that package in
//! every variant that does not say otherwise. Two fields of a package are kept
//! out of the variants: they belong to the package whatever the variant.

use crate::error::{malformed, misshapen, outcome, ConfigError, ConfigErrorView};
use crate::json::{
    copy_members, lemma_array_model, lemma_object_model, position, Json, JsonValue, Members,
};
use crate::table::{first_at, has_key, lemma_first_at, lemma_first_at_is, lookup};
use crate::text::{index_path, indexed, join, joined, same_text};
use vstd::prelude::*;

verus! {

broadcast use {lemma_array_model, lemma_object_model};

/// The fields of the top level that are not options of a variant.
pub open spec fn config_fields() -> Seq<Seq<char>> {
    seq!["package"@]
}

/// The fields of a package that hold whatever the variant.
pub open spec fn package_fields() -> Seq<Seq<char>> {
    seq!["add_toplevel_block"@, "patch"@]
}

/// `target`, followed by the members of `defaults` whose names it lacks and
/// `ignored` does not hold.
pub open spec fn with_defaults(target: Members, defaults: Members, ignored: Seq<Seq<char>>) -> Members
    decreases defaults.len(),
{
    if defaults.len() == 0 {
        target
    } else {
        let prior = with_defaults(target, defaults.drop_last(), ignored);
        let entry = defaults.last();
        if ignored.contains(entry.0) || has_key(prior, entry.0) {
            prior
        } else {
            prior.push(entry)
        }
    }
}

/// Whether `key` is one of `names`.
pub fn listed(names: &[&str], key: &str) -> (r: bool)
    ensures
        r == names.deep_view().contains(key@),
{
    let mut i: usize = 0;
    while i < names.len()
        invariant
            i <= names@.len(),
            forall|j: int| 0 <= j < i ==> names.deep_view()[j] != key@,
        decreases names@.len() - i,
    {
        if same_text(names[i], key) {
            assert(names.deep_view()[i as int] == key@);
            return true;
        }
        i += 1;
    }
    false
}

/// Inserts entries from `defaults` into `variant` if neither it nor
/// `ignored_fields` contain matching keys.
pub fn add_defaults_to_variant(
    variant: &mut Vec<(String, Json)>,
    defaults: &Vec<(String, Json)>,
    ignored_fields: &[&str],
)
    ensures
        final(variant).deep_view() == with_defaults(
            old(variant).deep_view(),
            defaults.deep_view(),
            ignored_fields.deep_view(),
        ),
{
    let ghost target = variant.deep_view();
    let ghost source = defaults.deep_view();
    let ghost ignored = ignored_fields.deep_view();
    let mut i: usize = 0;
    assert(source.take(0) =~= Seq::empty());
    while i < defaults.len()
        invariant
            i <= defaults@.len(),
            source == defaults.deep_view(),
            ignored == ignored_fields.deep_view(),
            variant.deep_view() == with_defaults(target, source.take(i as int), ignored),
        decreases defaults@.len() - i,
    {
        let ghost prior = variant.deep_view();
        assert(source.take(i + 1).drop_last() =~= source.take(i as int));
        assert(source.take(i + 1).last() == source[i as int]);
        let key = &defaults[i].0;
        assert(source[i as int] == (key@, defaults@[i as int].1@));
        let skip = listed(ignored_fields, key.as_str()) || position(variant, key.as_str())
            != variant.len();
        assert(skip == (ignored.contains(key@) || has_key(prior, key@)));
        if !skip {
            variant.push((key.clone(), defaults[i].1.clone()));
            assert(variant.deep_view() =~= prior.push(source[i as int]));
        }
        assert(variant.deep_view() == with_defaults(target, source.take(i + 1), ignored));
        i += 1;
    }
    assert(source.take(i as int) =~= source);
}

/// `members`, with an empty object under the name `key` where they have none.
pub open spec fn with_slot(members: Members, key: Seq<char>) -> Members {
    if has_key(members, key) {
        members
    } else {
        members.push((key, JsonValue::Object(Seq::empty())))
    }
}

/// `members`, with `value` in place of the first value under the name `key`.
pub open spec fn with_value(members: Members, key: Seq<char>, value: JsonValue) -> Members {
    if has_key(members, key) {
        members.update(first_at(members, key), (key, value))
    } else {
        members
    }
}

/// The packages of a variant once the options that the document gives for the
/// package `name` are laid under them. `location` is the path of the variant's
/// packages.
pub open spec fn fanned_package(
    local: Members,
    name: Seq<char>,
    options: JsonValue,
    location: Seq<char>,
) -> Result<Members, ConfigErrorView> {
    let slotted = with_slot(local, name);
    match lookup(slotted, name) {
        Some(JsonValue::Object(own)) => match options {
            JsonValue::Object(shared) => Ok(
                with_value(
                    slotted,
                    name,
                    JsonValue::Object(with_defaults(own, shared, package_fields())),
                ),
            ),
            _ => Err(malformed(joined("package"@, name), "is not an object"@)),
        },
        _ => Err(malformed(joined(location, name), "is not an object"@)),
    }
}

/// The packages of a variant once the options that the document gives for
/// each package are laid under them, package by package; the first package
/// that cannot be treated gives the error.
pub open spec fn fanned_packages(local: Members, global: Members, location: Seq<char>) -> Result<
    Members,
    ConfigErrorView,
>
    decreases global.len(),
{
    if global.len() == 0 {
        Ok(local)
    } else {
        match fanned_packages(local, global.drop_last(), location) {
            Err(error) => Err(error),
            Ok(prior) => fanned_package(prior, global.last().0, global.last().1, location),
        }
    }
}

/// A variant once all that the document says for every variant is laid under
/// it. `top` holds the members of the document but its variants; `location` is
/// the path of the variant.
pub open spec fn filled_variant(top: Members, variant: JsonValue, location: Seq<char>) -> Result<
    JsonValue,
    ConfigErrorView,
> {
    match variant {
        JsonValue::Object(own) => {
            let base = with_defaults(own, top, config_fields());
            match lookup(top, "package"@) {
                None => Ok(JsonValue::Object(base)),
                Some(packages) => {
                    let slotted = with_slot(base, "package"@);
                    match lookup(slotted, "package"@) {
                        Some(JsonValue::Object(local)) => match packages {
                            JsonValue::Object(global) => match fanned_packages(
                                local,
                                global,
                                joined(location, "package"@),
                            ) {
                                Ok(fanned) => Ok(
                                    JsonValue::Object(
                                        with_value(slotted, "package"@, JsonValue::Object(fanned)),
                                    ),
                                ),
                                Err(error) => Err(error),
                            },
                            _ => Err(malformed("package"@, "is not an object"@)),
                        },
                        _ => Err(malformed(joined(location, "package"@), "is not an object"@)),
                    }
                },
            }
        },
        _ => Err(malformed(location, "is not an object"@)),
    }
}

/// The variants, each one filled; the first that cannot be filled gives the error.
pub open spec fn filled_variants(top: Members, variants: Seq<JsonValue>) -> Result<
    Seq<JsonValue>,
    ConfigErrorView,
>
    decreases variants.len(),
{
    if variants.len() == 0 {
        Ok(Seq::empty())
    } else {
        match filled_variants(top, variants.drop_last()) {
            Err(error) => Err(error),
            Ok(prior) => match filled_variant(
                top,
                variants.last(),
                indexed("variants"@, (variants.len() - 1) as nat),
            ) {
                Ok(filled) => Ok(prior.push(filled)),
                Err(error) => Err(error),
            },
        }
    }
}

/// The members whose names are among `allowed`.
pub open spec fn retained(members: Members, allowed: Seq<Seq<char>>) -> Members
    decreases members.len(),
{
    if members.len() == 0 {
        members
    } else {
        let prior = retained(members.drop_last(), allowed);
        if allowed.contains(members.last().0) {
            prior.push(members.last())
        } else {
            prior
        }
    }
}

/// The members that are not named `key`.
pub open spec fn without(members: Members, key: Seq<char>) -> Members
    decreases members.len(),
{
    if members.len() == 0 {
        members
    } else {
        let prior = without(members.drop_last(), key);
        if members.last().0 == key {
            prior
        } else {
            prior.push(members.last())
        }
    }
}

/// The packages of the document, each with the fields of a package alone; the
/// first package that is not an object gives the error.
pub open spec fn pruned_packages(packages: Members) -> Result<Members, ConfigErrorView>
    decreases packages.len(),
{
    if packages.len() == 0 {
        Ok(packages)
    } else {
        match pruned_packages(packages.drop_last()) {
            Err(error) => Err(error),
            Ok(prior) => match packages.last().1 {
                JsonValue::Object(fields) => Ok(
                    prior.push(
                        (packages.last().0, JsonValue::Object(retained(fields, package_fields()))),
                    ),
                ),
                _ => Err(malformed(joined("package"@, packages.last().0), "is not an object"@)),
            },
        }
    }
}

/// What stays at the top level once the variants are filled: the packages,
/// each with the fields of a package alone.
pub open spec fn pruned(top: Members) -> Result<Members, ConfigErrorView> {
    let kept = retained(top, config_fields());
    match lookup(kept, "package"@) {
        None => Ok(kept),
        Some(JsonValue::Object(packages)) => match pruned_packages(packages) {
            Ok(slim) => Ok(with_value(kept, "package"@, JsonValue::Object(slim))),
            Err(error) => Err(error),
        },
        Some(_) => Err(malformed("package"@, "is not an object"@)),
    }
}

/// The variants that the document lists; a document that lists none has one
/// variant, which says nothing of its own.
pub open spec fn listed_variants(top: Members) -> Result<Seq<JsonValue>, ConfigErrorView> {
    match lookup(top, "variants"@) {
        None => Ok(seq![JsonValue::Object(Seq::empty())]),
        Some(JsonValue::Array(variants)) => Ok(variants),
        Some(_) => Err(malformed("variants"@, "is not an array"@)),
    }
}

/// The document with every variant filled and the top level pruned: the
/// packages first, then the variants.
pub open spec fn layered(document: JsonValue) -> Result<JsonValue, ConfigErrorView> {
    match document {
        JsonValue::Object(top) => match listed_variants(top) {
            Err(error) => Err(error),
            Ok(variants) => {
                let rest = without(top, "variants"@);
                match filled_variants(rest, variants) {
                    Err(error) => Err(error),
                    Ok(filled) => match pruned(rest) {
                        Err(error) => Err(error),
                        Ok(kept) => Ok(
                            JsonValue::Object(kept.push(("variants"@, JsonValue::Array(filled)))),
                        ),
                    },
                }
            },
        },
        _ => Err(malformed("config"@, "is not an object"@)),
    }
}

/// The names of the fields of the top level that are not options of a variant.
pub fn config_field_names() -> (names: [&'static str; 1])
    ensures
        names.deep_view() == config_fields(),
{
    let names = ["package"];
    assert(names.deep_view() =~= config_fields());
    names
}

/// The names of the fields of a package that hold whatever the variant.
pub fn package_field_names() -> (names: [&'static str; 2])
    ensures
        names.deep_view() == package_fields(),
{
    let names = ["add_toplevel_block", "patch"];
    assert(names.deep_view() =~= package_fields());
    names
}

/// Lays the options that the document gives for the package `name` under what
/// the variant says of that package.
fn fan_package(
    local: Vec<(String, Json)>,
    name: &String,
    options: &Json,
    location: &str,
) -> (r: Result<Vec<(String, Json)>, ConfigError>)
    ensures
        outcome(r) == fanned_package(local.deep_view(), name@, options@, location@),
{
    let ghost before = local.deep_view();
    let mut local = local;
    let at = position(&local, name.as_str());
    if at == local.len() {
        let empty: Vec<(String, Json)> = Vec::new();
        assert(empty.deep_view() =~= Seq::<(Seq<char>, JsonValue)>::empty());
        local.push((name.clone(), Json::Object(empty)));
        assert(local.deep_view() =~= with_slot(before, name@));
        proof {
            lemma_first_at(before, name@);
            lemma_first_at_is(local.deep_view(), name@, at as int);
        }
    }
    let ghost slotted = local.deep_view();
    assert(slotted == with_slot(before, name@));
    assert(first_at(slotted, name@) == at);
    let merged = match &local[at].1 {
        Json::Object(own) => match options {
            Json::Object(shared) => {
                let mut merged = copy_members(own);
                add_defaults_to_variant(&mut merged, shared, &package_field_names());
                merged
            },
            _ => {
                return Err(misshapen(join("package", name.as_str()).as_str(), "is not an object"));
            },
        },
        _ => {
            return Err(misshapen(join(location, name.as_str()).as_str(), "is not an object"));
        },
    };
    local.set(at, (name.clone(), Json::Object(merged)));
    assert(local.deep_view() =~= with_value(
        slotted,
        name@,
        JsonValue::Object(merged.deep_view()),
    ));
    Ok(local)
}

/// Lays the options that the document gives for each package under what the
/// variant says of that package.
fn fan_packages(local: Vec<(String, Json)>, global: &Vec<(String, Json)>, location: &str) -> (r:
    Result<Vec<(String, Json)>, ConfigError>)
    ensures
        outcome(r) == fanned_packages(local.deep_view(), global.deep_view(), location@),
{
    let ghost start = local.deep_view();
    let ghost source = global.deep_view();
    let mut r: Result<Vec<(String, Json)>, ConfigError> = Ok(local);
    let mut i: usize = 0;
    assert(source.take(0) =~= Seq::empty());
    while i < global.len()
        invariant
            i <= global@.len(),
            source == global.deep_view(),
            outcome(r) == fanned_packages(start, source.take(i as int), location@),
        decreases global@.len() - i,
    {
        assert(source.take(i + 1).drop_last() =~= source.take(i as int));
        assert(source.take(i + 1).last() == source[i as int]);
        r = match r {
            Ok(prior) => fan_package(prior, &global[i].0, &global[i].1, location),
            Err(error) => Err(error),
        };
        i += 1;
    }
    assert(source.take(i as int) =~= source);
    r
}

/// Lays all that the document says for every variant under what one variant
/// says. `top` holds the members of the document but its variants.
pub fn fill_variant(top: &Vec<(String, Json)>, variant: &Json, location: &str) -> (r: Result<
    Json,
    ConfigError,
>)
    ensures
        outcome(r) == filled_variant(top.deep_view(), variant@, location@),
{
    let own = match variant {
        Json::Object(own) => own,
        _ => {
            return Err(misshapen(location, "is not an object"));
        },
    };
    let mut filled = copy_members(own);
    add_defaults_to_variant(&mut filled, top, &config_field_names());
    let found = position(top, "package");
    if found == top.len() {
        return Ok(Json::Object(filled));
    }
    let packages = &top[found].1;
    assert(lookup(top.deep_view(), "package"@) == Some(packages@));
    let ghost base = filled.deep_view();
    let at = position(&filled, "package");
    if at == filled.len() {
        let empty: Vec<(String, Json)> = Vec::new();
        assert(empty.deep_view() =~= Seq::<(Seq<char>, JsonValue)>::empty());
        filled.push(("package".to_string(), Json::Object(empty)));
        assert(filled.deep_view() =~= with_slot(base, "package"@));
        proof {
            lemma_first_at(base, "package"@);
            lemma_first_at_is(filled.deep_view(), "package"@, at as int);
        }
    }
    let ghost slotted = filled.deep_view();
    assert(slotted == with_slot(base, "package"@));
    assert(first_at(slotted, "package"@) == at);
    let path = join(location, "package");
    let fanned = match &filled[at].1 {
        Json::Object(local) => match packages {
            Json::Object(global) => match fan_packages(copy_members(local), global, path.as_str()) {
                Ok(fanned) => fanned,
                Err(error) => {
                    return Err(error);
                },
            },
            _ => {
                return Err(misshapen("package", "is not an object"));
            },
        },
        _ => {
            return Err(misshapen(path.as_str(), "is not an object"));
        },
    };
    filled.set(at, ("package".to_string(), Json::Object(fanned)));
    assert(filled.deep_view() =~= with_value(
        slotted,
        "package"@,
        JsonValue::Object(fanned.deep_view()),
    ));
    Ok(Json::Object(filled))
}

/// Fills each variant.
fn fill_variants(top: &Vec<(String, Json)>, variants: &Vec<Json>) -> (r: Result<
    Vec<Json>,
    ConfigError,
>)
    ensures
        outcome(r) == filled_variants(top.deep_view(), variants.deep_view()),
{
    let ghost source = variants.deep_view();
    let mut r: Result<Vec<Json>, ConfigError> = Ok(Vec::new());
    let mut i: usize = 0;
    assert(source.take(0) =~= Seq::empty());
    assert(outcome(r)->Ok_0 =~= Seq::empty());
    while i < variants.len()
        invariant
            i <= variants@.len(),
            source == variants.deep_view(),
            outcome(r) == filled_variants(top.deep_view(), source.take(i as int)),
        decreases variants@.len() - i,
    {
        assert(source.take(i + 1).drop_last() =~= source.take(i as int));
        assert(source.take(i + 1).last() == source[i as int]);
        r = match r {
            Ok(prior) => {
                let location = index_path("variants", i);
                match fill_variant(top, &variants[i], location.as_str()) {
                    Ok(filled) => {
                        let ghost before = prior.deep_view();
                        let mut prior = prior;
                        prior.push(filled);
                        assert(prior.deep_view() =~= before.push(filled@));
                        Ok(prior)
                    },
                    Err(error) => Err(error),
                }
            },
            Err(error) => Err(error),
        };
        i += 1;
    }
    assert(source.take(i as int) =~= source);
    r
}

/// A copy of the members whose names are among `allowed`.
fn retain(members: &Vec<(String, Json)>, allowed: &[&str]) -> (kept: Vec<(String, Json)>)
    ensures
        kept.deep_view() == retained(members.deep_view(), allowed.deep_view()),
{
    let ghost source = members.deep_view();
    let mut kept: Vec<(String, Json)> = Vec::new();
    let mut i: usize = 0;
    assert(source.take(0) =~= Seq::empty());
    assert(kept.deep_view() =~= Seq::empty());
    while i < members.len()
        invariant
            i <= members@.len(),
            source == members.deep_view(),
            kept.deep_view() == retained(source.take(i as int), allowed.deep_view()),
        decreases members@.len() - i,
    {
        assert(source.take(i + 1).drop_last() =~= source.take(i as int));
        assert(source.take(i + 1).last() == source[i as int]);
        let ghost prior = kept.deep_view();
        if listed(allowed, members[i].0.as_str()) {
            kept.push((members[i].0.clone(), members[i].1.clone()));
            assert(kept.deep_view() =~= prior.push(source[i as int]));
        }
        i += 1;
    }
    assert(source.take(i as int) =~= source);
    kept
}

/// A copy of the members that are not named `key`.
fn remove(members: &Vec<(String, Json)>, key: &str) -> (kept: Vec<(String, Json)>)
    ensures
        kept.deep_view() == without(members.deep_view(), key@),
{
    let ghost source = members.deep_view();
    let mut kept: Vec<(String, Json)> = Vec::new();
    let mut i: usize = 0;
    assert(source.take(0) =~= Seq::empty());
    assert(kept.deep_view() =~= Seq::empty());
    while i < members.len()
        invariant
            i <= members@.len(),
            source == members.deep_view(),
            kept.deep_view() == without(source.take(i as int), key@),
        decreases members@.len() - i,
    {
        assert(source.take(i + 1).drop_last() =~= source.take(i as int));
        assert(source.take(i + 1).last() == source[i as int]);
        let ghost prior = kept.deep_view();
        if !same_text(members[i].0.as_str(), key) {
            kept.push((members[i].0.clone(), members[i].1.clone()));
            assert(kept.deep_view() =~= prior.push(source[i as int]));
        }
        i += 1;
    }
    assert(source.take(i as int) =~= source);
    kept
}

/// The packages of the document, each with the fields of a package alone.
fn prune_packages(packages: &Vec<(String, Json)>) -> (r: Result<Vec<(String, Json)>, ConfigError>)
    ensures
        outcome(r) == pruned_packages(packages.deep_view()),
{
    let ghost source = packages.deep_view();
    let mut r: Result<Vec<(String, Json)>, ConfigError> = Ok(Vec::new());
    let mut i: usize = 0;
    assert(source.take(0) =~= Seq::empty());
    assert(outcome(r)->Ok_0 =~= Seq::empty());
    while i < packages.len()
        invariant
            i <= packages@.len(),
            source == packages.deep_view(),
            outcome(r) == pruned_packages(source.take(i as int)),
        decreases packages@.len() - i,
    {
        assert(source.take(i + 1).drop_last() =~= source.take(i as int));
        assert(source.take(i + 1).last() == source[i as int]);
        r = match r {
            Ok(prior) => match &packages[i].1 {
                Json::Object(fields) => {
                    let ghost before = prior.deep_view();
                    let slim = retain(fields, &package_field_names());
                    let mut prior = prior;
                    prior.push((packages[i].0.clone(), Json::Object(slim)));
                    assert(prior.deep_view() =~= before.push(
                        (source[i as int].0, JsonValue::Object(slim.deep_view())),
                    ));
                    Ok(prior)
                },
                _ => Err(
                    misshapen(
                        join("package", packages[i].0.as_str()).as_str(),
                        "is not an object",
                    ),
                ),
            },
            Err(error) => Err(error),
        };
        i += 1;
    }
    assert(source.take(i as int) =~= source);
    r
}

/// What stays at the top level once the variants are filled.
fn prune(top: &Vec<(String, Json)>) -> (r: Result<Vec<(String, Json)>, ConfigError>)
    ensures
        outcome(r) == pruned(top.deep_view()),
{
    let mut kept = retain(top, &config_field_names());
    let at = position(&kept, "package");
    if at == kept.len() {
        return Ok(kept);
    }
    let ghost before = kept.deep_view();
    let slim = match &kept[at].1 {
        Json::Object(packages) => match prune_packages(packages) {
            Ok(slim) => slim,
            Err(error) => {
                return Err(error);
            },
        },
        _ => {
            return Err(misshapen("package", "is not an object"));
        },
    };
    kept.set(at, ("package".to_string(), Json::Object(slim)));
    assert(kept.deep_view() =~= with_value(before, "package"@, JsonValue::Object(slim.deep_view())));
    Ok(kept)
}

/// Fills every variant of a document and prunes its top level.
pub fn layer(document: &Json) -> (r: Result<Json, ConfigError>)
    ensures
        outcome(r) == layered(document@),
{
    let top = match document {
        Json::Object(top) => top,
        _ => {
            return Err(misshapen("config", "is not an object"));
        },
    };
    let at = position(top, "variants");
    let filled = if at == top.len() {
        let rest = remove(top, "variants");
        let mut single: Vec<Json> = Vec::new();
        let empty: Vec<(String, Json)> = Vec::new();
        assert(empty.deep_view() =~= Seq::<(Seq<char>, JsonValue)>::empty());
        single.push(Json::Object(empty));
        assert(single.deep_view() =~= seq![JsonValue::Object(Seq::empty())]);
        (fill_variants(&rest, &single), rest)
    } else {
        match &top[at].1 {
            Json::Array(variants) => {
                let rest = remove(top, "variants");
                (fill_variants(&rest, variants), rest)
            },
            _ => {
                return Err(misshapen("variants", "is not an array"));
            },
        }
    };
    let (filled, rest) = filled;
    let filled = match filled {
        Ok(filled) => filled,
        Err(error) => {
            return Err(error);
        },
    };
    let mut kept = match prune(&rest) {
        Ok(kept) => kept,
        Err(error) => {
            return Err(error);
        },
    };
    let ghost before = kept.deep_view();
    kept.push(("variants".to_string(), Json::Array(filled)));
    assert(kept.deep_view() =~= before.push(("variants"@, JsonValue::Array(filled.deep_view()))));
    Ok(Json::Object(kept))
}

} // verus!
