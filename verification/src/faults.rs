//! How the fault of a whole follows from the faults of its members.

use crate::json::{JsonValue, Members};
use crate::schema::Schema;
use crate::text::{indexed, joined};
use crate::validate::{
    config_fault_within, config_member_fault, plain_fault, plain_fault_within,
    plain_member_fault, table_fault_within, variant_fault, variant_fault_within,
    variant_member_fault, variants_fault_within,
};
use vstd::prelude::*;

verus! {

/// A part with a faulty member is faulty.
pub proof fn lemma_plain_fault_found(
    schema: Schema,
    fields: Members,
    count: int,
    location: Seq<char>,
    m: int,
)
    requires
        0 <= m < count,
        plain_member_fault(schema, fields, m, location) is Some,
    ensures
        plain_fault_within(schema, fields, count, location) is Some,
    decreases count,
{
    if m < count - 1 {
        lemma_plain_fault_found(schema, fields, count - 1, location, m);
    }
}

/// A part without a faulty member is not faulty.
pub proof fn lemma_plain_fault_none(schema: Schema, fields: Members, count: int, location: Seq<char>)
    requires
        forall|m: int|
            0 <= m < count ==> #[trigger] plain_member_fault(schema, fields, m, location) is None,
    ensures
        plain_fault_within(schema, fields, count, location) is None,
    decreases count,
{
    if count > 0 {
        lemma_plain_fault_none(schema, fields, count - 1, location);
    }
}

/// A map with a faulty part is faulty.
pub proof fn lemma_table_fault_found(
    schema: Schema,
    members: Members,
    count: int,
    path: Seq<char>,
    m: int,
)
    requires
        0 <= m < count,
        plain_fault(schema, members[m].1, joined(path, members[m].0)) is Some,
    ensures
        table_fault_within(schema, members, count, path) is Some,
    decreases count,
{
    if m < count - 1 {
        lemma_table_fault_found(schema, members, count - 1, path, m);
    }
}

/// A map without a faulty part is not faulty.
pub proof fn lemma_table_fault_none(schema: Schema, members: Members, count: int, path: Seq<char>)
    requires
        forall|m: int|
            0 <= m < count ==> #[trigger] plain_fault(
                schema,
                members[m].1,
                joined(path, members[m].0),
            ) is None,
    ensures
        table_fault_within(schema, members, count, path) is None,
    decreases count,
{
    if count > 0 {
        lemma_table_fault_none(schema, members, count - 1, path);
    }
}

/// A variant with a faulty member is faulty.
pub proof fn lemma_variant_fault_found(fields: Members, count: int, location: Seq<char>, m: int)
    requires
        0 <= m < count,
        variant_member_fault(fields, m, location) is Some,
    ensures
        variant_fault_within(fields, count, location) is Some,
    decreases count,
{
    if m < count - 1 {
        lemma_variant_fault_found(fields, count - 1, location, m);
    }
}

/// A variant without a faulty member is not faulty.
pub proof fn lemma_variant_fault_none(fields: Members, count: int, location: Seq<char>)
    requires
        forall|m: int| 0 <= m < count ==> #[trigger] variant_member_fault(fields, m, location) is None,
    ensures
        variant_fault_within(fields, count, location) is None,
    decreases count,
{
    if count > 0 {
        lemma_variant_fault_none(fields, count - 1, location);
    }
}

/// A list with a faulty variant is faulty.
pub proof fn lemma_variants_fault_found(variants: Seq<JsonValue>, count: int, m: int)
    requires
        0 <= m < count,
        variant_fault(variants[m], indexed("variants"@, m as nat)) is Some,
    ensures
        variants_fault_within(variants, count) is Some,
    decreases count,
{
    if m < count - 1 {
        lemma_variants_fault_found(variants, count - 1, m);
    }
}

/// A list without a faulty variant is not faulty.
pub proof fn lemma_variants_fault_none(variants: Seq<JsonValue>, count: int)
    requires
        forall|m: int|
            0 <= m < count ==> #[trigger] variant_fault(
                variants[m],
                indexed("variants"@, m as nat),
            ) is None,
    ensures
        variants_fault_within(variants, count) is None,
    decreases count,
{
    if count > 0 {
        lemma_variants_fault_none(variants, count - 1);
    }
}

/// A top level with a faulty member is faulty.
pub proof fn lemma_config_fault_found(fields: Members, count: int, m: int)
    requires
        0 <= m < count,
        config_member_fault(fields, m) is Some,
    ensures
        config_fault_within(fields, count) is Some,
    decreases count,
{
    if m < count - 1 {
        lemma_config_fault_found(fields, count - 1, m);
    }
}

/// A top level without a faulty member is not faulty.
pub proof fn lemma_config_fault_none(fields: Members, count: int)
    requires
        forall|m: int| 0 <= m < count ==> #[trigger] config_member_fault(fields, m) is None,
    ensures
        config_fault_within(fields, count) is None,
    decreases count,
{
    if count > 0 {
        lemma_config_fault_none(fields, count - 1);
    }
}

} // verus!
