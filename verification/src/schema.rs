//! Which fields each part of a configuration has, and what each may hold.

use crate::json::{lemma_array_model, lemma_object_model, Json, JsonValue};
use crate::text::same_text;
use vstd::prelude::*;

verus! {

broadcast use {lemma_array_model, lemma_object_model};

/// What a field may hold.
#[derive(Clone, Copy, Debug)]
pub enum Kind {
    /// `true` or `false`.
    Flag,
    /// A string, or `null` for none.
    OptionalText,
    /// An array of strings.
    TextList,
    /// An array of strings, or `null` for none.
    OptionalTextList,
    /// An object whose values are strings.
    TextTable,
    /// An object whose values are arrays of strings.
    TextListTable,
}

/// A part of a configuration whose fields hold no further parts.
#[derive(Clone, Copy, Debug)]
pub enum Schema {
    /// The options of a package that hold for all variants.
    Package,
    /// The options of a package within one variant.
    PackageVariant,
}

/// What a field of a variant may hold.
#[derive(Clone, Copy, Debug)]
pub enum VariantField {
    /// A value of the kind.
    Plain(Kind),
    /// The options of single packages, by package name.
    Packages,
}

/// Whether the value is an array of strings.
pub open spec fn is_text_list(value: JsonValue) -> bool {
    value matches JsonValue::Array(items) && forall|i: int|
        0 <= i < items.len() ==> #[trigger] items[i] is Text
}

/// Whether a field of the kind may hold the value.
pub open spec fn fits(value: JsonValue, kind: Kind) -> bool {
    match kind {
        Kind::Flag => value is Bool,
        Kind::OptionalText => value is Null || value is Text,
        Kind::TextList => is_text_list(value),
        Kind::OptionalTextList => value is Null || is_text_list(value),
        Kind::TextTable => value matches JsonValue::Object(members) && forall|i: int|
            0 <= i < members.len() ==> (#[trigger] members[i]).1 is Text,
        Kind::TextListTable => value matches JsonValue::Object(members) && forall|i: int|
            0 <= i < members.len() ==> is_text_list((#[trigger] members[i]).1),
    }
}

/// What is said of a value that does not fit the kind.
pub open spec fn expectation(kind: Kind) -> Seq<char> {
    match kind {
        Kind::Flag => "is not a boolean"@,
        Kind::OptionalText => "is not a string"@,
        Kind::TextList => "is not a list of strings"@,
        Kind::OptionalTextList => "is not a list of strings"@,
        Kind::TextTable => "is not a map of strings"@,
        Kind::TextListTable => "is not a map of lists of strings"@,
    }
}

/// The kind of the field `name` of a part without further parts; `None` where
/// the part has no such field.
pub open spec fn plain_field(schema: Schema, name: Seq<char>) -> Option<Kind> {
    match schema {
        Schema::Package => if name == "add_toplevel_block"@ {
            Some(Kind::OptionalText)
        } else if name == "patch"@ {
            Some(Kind::OptionalText)
        } else {
            None
        },
        Schema::PackageVariant => if name == "alloc"@ {
            Some(Kind::Flag)
        } else if name == "device_supported"@ {
            Some(Kind::Flag)
        } else if name == "host_supported"@ {
            Some(Kind::Flag)
        } else if name == "host_first_multilib"@ {
            Some(Kind::Flag)
        } else if name == "force_rlib"@ {
            Some(Kind::Flag)
        } else if name == "no_presubmit"@ {
            Some(Kind::Flag)
        } else if name == "add_module_block"@ {
            Some(Kind::OptionalText)
        } else if name == "dep_blocklist"@ {
            Some(Kind::TextList)
        } else if name == "no_std"@ {
            Some(Kind::Flag)
        } else if name == "copy_out"@ {
            Some(Kind::Flag)
        } else if name == "test_data"@ {
            Some(Kind::TextListTable)
        } else {
            None
        },
    }
}

/// What the field `name` of a variant may hold; `None` where a variant has no
/// such field.
pub open spec fn variant_field(name: Seq<char>) -> Option<VariantField> {
    if name == "tests"@ {
        Some(VariantField::Plain(Kind::Flag))
    } else if name == "features"@ {
        Some(VariantField::Plain(Kind::OptionalTextList))
    } else if name == "workspace"@ {
        Some(VariantField::Plain(Kind::Flag))
    } else if name == "workspace_excludes"@ {
        Some(VariantField::Plain(Kind::TextList))
    } else if name == "global_defaults"@ {
        Some(VariantField::Plain(Kind::OptionalText))
    } else if name == "apex_available"@ {
        Some(VariantField::Plain(Kind::TextList))
    } else if name == "product_available"@ {
        Some(VariantField::Plain(Kind::Flag))
    } else if name == "vendor_available"@ {
        Some(VariantField::Plain(Kind::Flag))
    } else if name == "min_sdk_version"@ {
        Some(VariantField::Plain(Kind::OptionalText))
    } else if name == "module_name_overrides"@ {
        Some(VariantField::Plain(Kind::TextTable))
    } else if name == "package"@ {
        Some(VariantField::Packages)
    } else if name == "cfg_blocklist"@ {
        Some(VariantField::Plain(Kind::TextList))
    } else if name == "module_blocklist"@ {
        Some(VariantField::Plain(Kind::TextList))
    } else if name == "module_visibility"@ {
        Some(VariantField::Plain(Kind::TextListTable))
    } else if name == "run_cargo"@ {
        Some(VariantField::Plain(Kind::Flag))
    } else {
        None
    }
}

/// Whether the value is an array of strings.
pub fn holds_text_list(value: &Json) -> (r: bool)
    ensures
        r == is_text_list(value@),
{
    match value {
        Json::Array(items) => {
            let mut i: usize = 0;
            while i < items.len()
                invariant
                    i <= items@.len(),
                    value@ == JsonValue::Array(items.deep_view()),
                    forall|j: int| 0 <= j < i ==> #[trigger] items.deep_view()[j] is Text,
                decreases items@.len() - i,
            {
                match &items[i] {
                    Json::Text(_) => {},
                    _ => {
                        assert(!(items.deep_view()[i as int] is Text));
                        return false;
                    },
                }
                i += 1;
            }
            true
        },
        _ => false,
    }
}

/// Whether a field of the kind may hold the value.
pub fn holds(value: &Json, kind: Kind) -> (r: bool)
    ensures
        r == fits(value@, kind),
{
    match kind {
        Kind::Flag => match value {
            Json::Bool(_) => true,
            _ => false,
        },
        Kind::OptionalText => match value {
            Json::Null => true,
            Json::Text(_) => true,
            _ => false,
        },
        Kind::TextList => holds_text_list(value),
        Kind::OptionalTextList => match value {
            Json::Null => true,
            _ => holds_text_list(value),
        },
        Kind::TextTable => match value {
            Json::Object(members) => {
                let mut i: usize = 0;
                while i < members.len()
                    invariant
                        i <= members@.len(),
                        kind is TextTable,
                        value@ == JsonValue::Object(members.deep_view()),
                        forall|j: int| 0 <= j < i ==> (#[trigger] members.deep_view()[j]).1 is Text,
                    decreases members@.len() - i,
                {
                    match &members[i].1 {
                        Json::Text(_) => {},
                        _ => {
                            assert(!(members.deep_view()[i as int].1 is Text));
                            return false;
                        },
                    }
                    i += 1;
                }
                true
            },
            _ => false,
        },
        Kind::TextListTable => match value {
            Json::Object(members) => {
                let mut i: usize = 0;
                while i < members.len()
                    invariant
                        i <= members@.len(),
                        kind is TextListTable,
                        value@ == JsonValue::Object(members.deep_view()),
                        forall|j: int|
                            0 <= j < i ==> is_text_list((#[trigger] members.deep_view()[j]).1),
                    decreases members@.len() - i,
                {
                    if !holds_text_list(&members[i].1) {
                        assert(!is_text_list(members.deep_view()[i as int].1));
                        return false;
                    }
                    i += 1;
                }
                true
            },
            _ => false,
        },
    }
}

/// What is said of a value that does not fit the kind.
pub fn complaint(kind: Kind) -> (text: &'static str)
    ensures
        text@ == expectation(kind),
{
    match kind {
        Kind::Flag => "is not a boolean",
        Kind::OptionalText => "is not a string",
        Kind::TextList => "is not a list of strings",
        Kind::OptionalTextList => "is not a list of strings",
        Kind::TextTable => "is not a map of strings",
        Kind::TextListTable => "is not a map of lists of strings",
    }
}

/// The kind of the field `name` of a part without further parts.
pub fn plain_kind(schema: Schema, name: &str) -> (r: Option<Kind>)
    ensures
        r == plain_field(schema, name@),
{
    match schema {
        Schema::Package => if same_text(name, "add_toplevel_block") {
            Some(Kind::OptionalText)
        } else if same_text(name, "patch") {
            Some(Kind::OptionalText)
        } else {
            None
        },
        Schema::PackageVariant => if same_text(name, "alloc") {
            Some(Kind::Flag)
        } else if same_text(name, "device_supported") {
            Some(Kind::Flag)
        } else if same_text(name, "host_supported") {
            Some(Kind::Flag)
        } else if same_text(name, "host_first_multilib") {
            Some(Kind::Flag)
        } else if same_text(name, "force_rlib") {
            Some(Kind::Flag)
        } else if same_text(name, "no_presubmit") {
            Some(Kind::Flag)
        } else if same_text(name, "add_module_block") {
            Some(Kind::OptionalText)
        } else if same_text(name, "dep_blocklist") {
            Some(Kind::TextList)
        } else if same_text(name, "no_std") {
            Some(Kind::Flag)
        } else if same_text(name, "copy_out") {
            Some(Kind::Flag)
        } else if same_text(name, "test_data") {
            Some(Kind::TextListTable)
        } else {
            None
        },
    }
}

/// What the field `name` of a variant may hold.
pub fn variant_kind(name: &str) -> (r: Option<VariantField>)
    ensures
        r == variant_field(name@),
{
    if same_text(name, "tests") {
        Some(VariantField::Plain(Kind::Flag))
    } else if same_text(name, "features") {
        Some(VariantField::Plain(Kind::OptionalTextList))
    } else if same_text(name, "workspace") {
        Some(VariantField::Plain(Kind::Flag))
    } else if same_text(name, "workspace_excludes") {
        Some(VariantField::Plain(Kind::TextList))
    } else if same_text(name, "global_defaults") {
        Some(VariantField::Plain(Kind::OptionalText))
    } else if same_text(name, "apex_available") {
        Some(VariantField::Plain(Kind::TextList))
    } else if same_text(name, "product_available") {
        Some(VariantField::Plain(Kind::Flag))
    } else if same_text(name, "vendor_available") {
        Some(VariantField::Plain(Kind::Flag))
    } else if same_text(name, "min_sdk_version") {
        Some(VariantField::Plain(Kind::OptionalText))
    } else if same_text(name, "module_name_overrides") {
        Some(VariantField::Plain(Kind::TextTable))
    } else if same_text(name, "package") {
        Some(VariantField::Packages)
    } else if same_text(name, "cfg_blocklist") {
        Some(VariantField::Plain(Kind::TextList))
    } else if same_text(name, "module_blocklist") {
        Some(VariantField::Plain(Kind::TextList))
    } else if same_text(name, "module_visibility") {
        Some(VariantField::Plain(Kind::TextListTable))
    } else if same_text(name, "run_cargo") {
        Some(VariantField::Plain(Kind::Flag))
    } else {
        None
    }
}

} // verus!
