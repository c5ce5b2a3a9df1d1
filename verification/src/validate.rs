//! What is wrong with a document that is not a configuration.
//!
//! The members of an object are taken in their order, and the first one that
//! is wrong gives the error: a name that its place does not know, a name given
//! twice, or a value that does not have the shape of the field.

use crate::error::{malformed, misshapen, ConfigError, ConfigErrorView};
use crate::json::{lemma_array_model, lemma_object_model, position, Json, JsonValue, Members};
use crate::schema::{
    complaint, expectation, fits, holds, plain_field, plain_kind, variant_field, variant_kind, Kind,
    Schema, VariantField,
};
use crate::table::{first_at, has_key};
use crate::text::{index_path, indexed, join, joined, same_text};
use vstd::prelude::*;

verus! {

broadcast use {lemma_array_model, lemma_object_model};

/// What is wrong with the value of a field of a kind, if anything.
pub open spec fn kind_fault(value: JsonValue, kind: Kind, path: Seq<char>) -> Option<ConfigErrorView> {
    if fits(value, kind) {
        None
    } else {
        Some(malformed(path, expectation(kind)))
    }
}

/// What is wrong with the member `index` of a part without further parts, if
/// anything.
pub open spec fn plain_member_fault(
    schema: Schema,
    fields: Members,
    index: int,
    location: Seq<char>,
) -> Option<ConfigErrorView> {
    let name = fields[index].0;
    let path = joined(location, name);
    match plain_field(schema, name) {
        None => Some(ConfigErrorView::UnknownField(path)),
        Some(kind) => if first_at(fields, name) < index {
            Some(malformed(path, "is given twice"@))
        } else {
            kind_fault(fields[index].1, kind, path)
        },
    }
}

/// The first fault among the first `count` members of a part without further parts.
pub open spec fn plain_fault_within(
    schema: Schema,
    fields: Members,
    count: int,
    location: Seq<char>,
) -> Option<ConfigErrorView>
    decreases count,
{
    if count <= 0 {
        None
    } else {
        match plain_fault_within(schema, fields, count - 1, location) {
            Some(error) => Some(error),
            None => plain_member_fault(schema, fields, count - 1, location),
        }
    }
}

/// What is wrong with a part without further parts, if anything.
pub open spec fn plain_fault(schema: Schema, value: JsonValue, location: Seq<char>) -> Option<
    ConfigErrorView,
> {
    match value {
        JsonValue::Object(fields) => plain_fault_within(schema, fields, fields.len() as int, location),
        _ => Some(malformed(location, "is not an object"@)),
    }
}

/// The first fault among the first `count` parts of a map of parts.
pub open spec fn table_fault_within(
    schema: Schema,
    members: Members,
    count: int,
    path: Seq<char>,
) -> Option<ConfigErrorView>
    decreases count,
{
    if count <= 0 {
        None
    } else {
        match table_fault_within(schema, members, count - 1, path) {
            Some(error) => Some(error),
            None => plain_fault(schema, members[count - 1].1, joined(path, members[count - 1].0)),
        }
    }
}

/// What is wrong with a map of parts, if anything.
pub open spec fn table_fault(schema: Schema, value: JsonValue, path: Seq<char>) -> Option<
    ConfigErrorView,
> {
    match value {
        JsonValue::Object(members) => table_fault_within(schema, members, members.len() as int, path),
        _ => Some(malformed(path, "is not an object"@)),
    }
}

/// What is wrong with the member `index` of a variant, if anything.
pub open spec fn variant_member_fault(fields: Members, index: int, location: Seq<char>) -> Option<
    ConfigErrorView,
> {
    let name = fields[index].0;
    let path = joined(location, name);
    match variant_field(name) {
        None => Some(ConfigErrorView::UnknownField(path)),
        Some(field) => if first_at(fields, name) < index {
            Some(malformed(path, "is given twice"@))
        } else {
            match field {
                VariantField::Plain(kind) => kind_fault(fields[index].1, kind, path),
                VariantField::Packages => table_fault(Schema::PackageVariant, fields[index].1, path),
            }
        },
    }
}

/// The first fault among the first `count` members of a variant.
pub open spec fn variant_fault_within(fields: Members, count: int, location: Seq<char>) -> Option<
    ConfigErrorView,
>
    decreases count,
{
    if count <= 0 {
        None
    } else {
        match variant_fault_within(fields, count - 1, location) {
            Some(error) => Some(error),
            None => variant_member_fault(fields, count - 1, location),
        }
    }
}

/// What is wrong with a variant, if anything.
pub open spec fn variant_fault(value: JsonValue, location: Seq<char>) -> Option<ConfigErrorView> {
    match value {
        JsonValue::Object(fields) => variant_fault_within(fields, fields.len() as int, location),
        _ => Some(malformed(location, "is not an object"@)),
    }
}

/// The first fault among the first `count` variants.
pub open spec fn variants_fault_within(variants: Seq<JsonValue>, count: int) -> Option<
    ConfigErrorView,
>
    decreases count,
{
    if count <= 0 {
        None
    } else {
        match variants_fault_within(variants, count - 1) {
            Some(error) => Some(error),
            None => variant_fault(variants[count - 1], indexed("variants"@, (count - 1) as nat)),
        }
    }
}

/// What is wrong with the list of variants, if anything.
pub open spec fn variants_fault(value: JsonValue) -> Option<ConfigErrorView> {
    match value {
        JsonValue::Array(variants) => variants_fault_within(variants, variants.len() as int),
        _ => Some(malformed("variants"@, "is not an array"@)),
    }
}

/// What is wrong with the member `index` of the top level, if anything.
pub open spec fn config_member_fault(fields: Members, index: int) -> Option<ConfigErrorView> {
    let name = fields[index].0;
    if name == "variants"@ {
        if first_at(fields, name) < index {
            Some(malformed(name, "is given twice"@))
        } else {
            variants_fault(fields[index].1)
        }
    } else if name == "package"@ {
        if first_at(fields, name) < index {
            Some(malformed(name, "is given twice"@))
        } else {
            table_fault(Schema::Package, fields[index].1, name)
        }
    } else {
        Some(ConfigErrorView::UnknownField(name))
    }
}

/// The first fault among the first `count` members of the top level.
pub open spec fn config_fault_within(fields: Members, count: int) -> Option<ConfigErrorView>
    decreases count,
{
    if count <= 0 {
        None
    } else {
        match config_fault_within(fields, count - 1) {
            Some(error) => Some(error),
            None => config_member_fault(fields, count - 1),
        }
    }
}

/// What is wrong with a document that is to be a configuration, if anything:
/// the first fault of its members, or that it lists no variants.
pub open spec fn config_fault(document: JsonValue) -> Option<ConfigErrorView> {
    match document {
        JsonValue::Object(fields) => match config_fault_within(fields, fields.len() as int) {
            Some(error) => Some(error),
            None => if has_key(fields, "variants"@) {
                None
            } else {
                Some(malformed("variants"@, "is missing"@))
            },
        },
        _ => Some(malformed("config"@, "is not an object"@)),
    }
}

/// What is wrong with the value of a field of a kind, if anything.
fn check_kind(value: &Json, kind: Kind, path: &str) -> (fault: Option<ConfigError>)
    ensures
        fault.deep_view() == kind_fault(value@, kind, path@),
{
    if holds(value, kind) {
        None
    } else {
        Some(misshapen(path, complaint(kind)))
    }
}

/// What is wrong with a part without further parts, if anything.
pub fn check_plain(schema: Schema, value: &Json, location: &str) -> (fault: Option<ConfigError>)
    ensures
        fault.deep_view() == plain_fault(schema, value@, location@),
{
    let fields = match value {
        Json::Object(fields) => fields,
        _ => {
            return Some(misshapen(location, "is not an object"));
        },
    };
    let mut fault: Option<ConfigError> = None;
    let mut i: usize = 0;
    while i < fields.len()
        invariant
            i <= fields@.len(),
            fault.deep_view() == plain_fault_within(
                schema,
                fields.deep_view(),
                i as int,
                location@,
            ),
        decreases fields@.len() - i,
    {
        if fault.is_none() {
            let name = fields[i].0.as_str();
            let path = join(location, name);
            fault = match plain_kind(schema, name) {
                None => Some(ConfigError::UnknownField(path)),
                Some(kind) => if position(fields, name) < i {
                    Some(misshapen(path.as_str(), "is given twice"))
                } else {
                    check_kind(&fields[i].1, kind, path.as_str())
                },
            };
        }
        i += 1;
    }
    fault
}

/// What is wrong with a map of parts, if anything.
pub fn check_table(schema: Schema, value: &Json, path: &str) -> (fault: Option<ConfigError>)
    ensures
        fault.deep_view() == table_fault(schema, value@, path@),
{
    let members = match value {
        Json::Object(members) => members,
        _ => {
            return Some(misshapen(path, "is not an object"));
        },
    };
    let mut fault: Option<ConfigError> = None;
    let mut i: usize = 0;
    while i < members.len()
        invariant
            i <= members@.len(),
            fault.deep_view() == table_fault_within(schema, members.deep_view(), i as int, path@),
        decreases members@.len() - i,
    {
        if fault.is_none() {
            let location = join(path, members[i].0.as_str());
            fault = check_plain(schema, &members[i].1, location.as_str());
        }
        i += 1;
    }
    fault
}

/// What is wrong with a variant, if anything.
pub fn check_variant(value: &Json, location: &str) -> (fault: Option<ConfigError>)
    ensures
        fault.deep_view() == variant_fault(value@, location@),
{
    let fields = match value {
        Json::Object(fields) => fields,
        _ => {
            return Some(misshapen(location, "is not an object"));
        },
    };
    let mut fault: Option<ConfigError> = None;
    let mut i: usize = 0;
    while i < fields.len()
        invariant
            i <= fields@.len(),
            fault.deep_view() == variant_fault_within(fields.deep_view(), i as int, location@),
        decreases fields@.len() - i,
    {
        if fault.is_none() {
            let name = fields[i].0.as_str();
            let path = join(location, name);
            fault = match variant_kind(name) {
                None => Some(ConfigError::UnknownField(path)),
                Some(field) => if position(fields, name) < i {
                    Some(misshapen(path.as_str(), "is given twice"))
                } else {
                    match field {
                        VariantField::Plain(kind) => check_kind(&fields[i].1, kind, path.as_str()),
                        VariantField::Packages => check_table(
                            Schema::PackageVariant,
                            &fields[i].1,
                            path.as_str(),
                        ),
                    }
                },
            };
        }
        i += 1;
    }
    fault
}

/// What is wrong with the list of variants, if anything.
pub fn check_variants(value: &Json) -> (fault: Option<ConfigError>)
    ensures
        fault.deep_view() == variants_fault(value@),
{
    let variants = match value {
        Json::Array(variants) => variants,
        _ => {
            return Some(misshapen("variants", "is not an array"));
        },
    };
    let mut fault: Option<ConfigError> = None;
    let mut i: usize = 0;
    while i < variants.len()
        invariant
            i <= variants@.len(),
            fault.deep_view() == variants_fault_within(variants.deep_view(), i as int),
        decreases variants@.len() - i,
    {
        if fault.is_none() {
            let location = index_path("variants", i);
            fault = check_variant(&variants[i], location.as_str());
        }
        i += 1;
    }
    fault
}

/// What is wrong with a document that is to be a configuration, if anything.
pub fn check_config(document: &Json) -> (fault: Option<ConfigError>)
    ensures
        fault.deep_view() == config_fault(document@),
{
    let fields = match document {
        Json::Object(fields) => fields,
        _ => {
            return Some(misshapen("config", "is not an object"));
        },
    };
    let mut fault: Option<ConfigError> = None;
    let mut i: usize = 0;
    while i < fields.len()
        invariant
            i <= fields@.len(),
            fault.deep_view() == config_fault_within(fields.deep_view(), i as int),
        decreases fields@.len() - i,
    {
        if fault.is_none() {
            let name = fields[i].0.as_str();
            fault = if same_text(name, "variants") {
                if position(fields, name) < i {
                    Some(misshapen(name, "is given twice"))
                } else {
                    check_variants(&fields[i].1)
                }
            } else if same_text(name, "package") {
                if position(fields, name) < i {
                    Some(misshapen(name, "is given twice"))
                } else {
                    check_table(Schema::Package, &fields[i].1, name)
                }
            } else {
                Some(ConfigError::UnknownField(name.to_string()))
            };
        }
        i += 1;
    }
    if fault.is_some() {
        fault
    } else if position(fields, "variants") < fields.len() {
        None
    } else {
        Some(misshapen("variants", "is missing"))
    }
}

} // verus!
