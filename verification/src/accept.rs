//! When the derives accept an item, stated field by field: the attributes
//! parsed, every part that goes into the message has a type the derive
//! handles, and the tags fit below `u64::MAX`.
use vstd::prelude::*;

use crate::laws::is_written;
use crate::model::{resolve_tag, Field, FieldType, Variant};
use crate::read::{enum_read_plans, spec_read_plan, struct_read_plans, variant_read_plans};
use crate::write::{enum_write_plans, spec_write_plan, struct_write_plans, variant_write_plans};

verus! {

/// Whether the running index never has to step past `u64::MAX`: each field
/// that goes into the message has a tag below `u64::MAX`.
pub open spec fn tags_fit(fields: Seq<Field>, index: u64) -> bool
    decreases fields.len(),
{
    if fields.len() == 0 {
        true
    } else {
        match fields[0].attrs {
            Ok(a) => if a.ignore {
                tags_fit(fields.drop_first(), index)
            } else {
                resolve_tag(a, index) < u64::MAX && tags_fit(
                    fields.drop_first(),
                    (resolve_tag(a, index) + 1) as u64,
                )
            },
            Err(_) => true,
        }
    }
}

/// Every field's attributes parsed.
pub open spec fn attrs_parsed(fields: Seq<Field>) -> bool {
    forall|j: int| 0 <= j < fields.len() ==> (#[trigger] fields[j]).attrs is Ok
}

/// Every field that goes into the message has a type with a read.
pub open spec fn fields_have_read(fields: Seq<Field>) -> bool {
    forall|j: int|
        0 <= j < fields.len() && is_written(#[trigger] fields[j].attrs) ==> spec_read_plan(fields[j].ty, fields[j].attrs->Ok_0, false) is Some
}

/// The read derive accepts a struct's fields exactly when every field's
/// attributes parsed, every field that goes into the message has a type with a
/// read, and the tags fit below `u64::MAX`.
pub proof fn lemma_struct_read_accepts(fields: Seq<Field>, index: u64)
    ensures
        struct_read_plans(fields, index) is Ok <==> (attrs_parsed(fields) && fields_have_read(fields)
            && tags_fit(fields, index)),
    decreases fields.len(),
{
    if fields.len() == 0 {
        return;
    }
    let rest = fields.drop_first();
    assert forall|j: int| 0 <= j < rest.len() implies rest[j] == fields[j + 1] by {}
    match fields[0].attrs {
        Err(_) => {
            assert(!attrs_parsed(fields));
        },
        Ok(attr) => {
            let next = if attr.ignore {
                index
            } else {
                (resolve_tag(attr, index) + 1) as u64
            };
            lemma_struct_read_accepts(rest, next);
            if attrs_parsed(rest) {
                assert forall|j: int| 0 <= j < fields.len() implies (#[trigger] fields[j]).attrs is Ok by {
                    if j > 0 {
                        assert(rest[j - 1] == fields[j]);
                    }
                }
            }
            if attrs_parsed(fields) {
                assert forall|j: int| 0 <= j < rest.len() implies (#[trigger] rest[j]).attrs is Ok by {
                    assert(rest[j] == fields[j + 1]);
                }
            }
            let first_ok = is_written(fields[0].attrs) ==> spec_read_plan(fields[0].ty, fields[0].attrs->Ok_0, false) is Some;
            if first_ok && fields_have_read(rest) {
                assert forall|j: int|
                    0 <= j < fields.len() && is_written(#[trigger] fields[j].attrs) implies spec_read_plan(fields[j].ty, fields[j].attrs->Ok_0, false) is Some by {
                    if j > 0 {
                        assert(rest[j - 1] == fields[j]);
                    }
                }
            }
            if fields_have_read(fields) {
                assert forall|j: int|
                    0 <= j < rest.len() && is_written(#[trigger] rest[j].attrs) implies spec_read_plan(rest[j].ty, rest[j].attrs->Ok_0, false) is Some by {
                    assert(rest[j] == fields[j + 1]);
                }
                assert(first_ok);
            }
        },
    }
}

/// Every field that goes into the message has a type with a write.
pub open spec fn fields_have_write(fields: Seq<Field>) -> bool {
    forall|j: int|
        0 <= j < fields.len() && is_written(#[trigger] fields[j].attrs) ==> spec_write_plan(fields[j].ty, fields[j].attrs->Ok_0) is Some
}

/// The write derive accepts a struct's fields exactly when every field's
/// attributes parsed, every field that goes into the message has a type with a
/// write, and the tags fit below `u64::MAX`.
pub proof fn lemma_struct_write_accepts(fields: Seq<Field>, index: u64)
    ensures
        struct_write_plans(fields, index) is Ok <==> (attrs_parsed(fields) && fields_have_write(fields)
            && tags_fit(fields, index)),
    decreases fields.len(),
{
    if fields.len() == 0 {
        return;
    }
    let rest = fields.drop_first();
    assert forall|j: int| 0 <= j < rest.len() implies rest[j] == fields[j + 1] by {}
    match fields[0].attrs {
        Err(_) => {
            assert(!attrs_parsed(fields));
        },
        Ok(attr) => {
            let next = if attr.ignore {
                index
            } else {
                (resolve_tag(attr, index) + 1) as u64
            };
            lemma_struct_write_accepts(rest, next);
            if attrs_parsed(rest) {
                assert forall|j: int| 0 <= j < fields.len() implies (#[trigger] fields[j]).attrs is Ok by {
                    if j > 0 {
                        assert(rest[j - 1] == fields[j]);
                    }
                }
            }
            if attrs_parsed(fields) {
                assert forall|j: int| 0 <= j < rest.len() implies (#[trigger] rest[j]).attrs is Ok by {
                    assert(rest[j] == fields[j + 1]);
                }
            }
            let first_ok = is_written(fields[0].attrs) ==> spec_write_plan(fields[0].ty, fields[0].attrs->Ok_0) is Some;
            if first_ok && fields_have_write(rest) {
                assert forall|j: int|
                    0 <= j < fields.len() && is_written(#[trigger] fields[j].attrs) implies spec_write_plan(fields[j].ty, fields[j].attrs->Ok_0) is Some by {
                    if j > 0 {
                        assert(rest[j - 1] == fields[j]);
                    }
                }
            }
            if fields_have_write(fields) {
                assert forall|j: int|
                    0 <= j < rest.len() && is_written(#[trigger] rest[j].attrs) implies spec_write_plan(rest[j].ty, rest[j].attrs->Ok_0) is Some by {
                    assert(rest[j] == fields[j + 1]);
                }
                assert(first_ok);
            }
        },
    }
}

/// Every variant's attributes parsed.
pub open spec fn variant_attrs_parsed(variants: Seq<Variant>) -> bool {
    forall|j: int| 0 <= j < variants.len() ==> (#[trigger] variants[j]).attrs is Ok
}

/// Every field of a variant that is not ignored has a type with a read.
pub open spec fn variants_have_read(variants: Seq<Variant>) -> bool {
    forall|j: int, k: int|
        0 <= j < variants.len() && is_written((#[trigger] variants[j]).attrs) && 0 <= k
            < variants[j].fields.len() ==> spec_read_plan(
            #[trigger] variants[j].fields@[k],
            variants[j].attrs->Ok_0,
            false,
        ) is Some
}

/// Every field of a variant that is not ignored has a type with a write.
pub open spec fn variants_have_write(variants: Seq<Variant>) -> bool {
    forall|j: int, k: int|
        0 <= j < variants.len() && is_written((#[trigger] variants[j]).attrs) && 0 <= k
            < variants[j].fields.len() ==> spec_write_plan(
            #[trigger] variants[j].fields@[k],
            variants[j].attrs->Ok_0,
        ) is Some
}

/// The read derive's running index over an enum never has to step past
/// `u64::MAX`: a variant's explicit tag becomes the index, and each variant
/// with fields has a tag below `u64::MAX`.
pub open spec fn enum_read_tags_fit(variants: Seq<Variant>, index: u64) -> bool
    decreases variants.len(),
{
    if variants.len() == 0 {
        true
    } else {
        match variants[0].attrs {
            Ok(a) => {
                let t = resolve_tag(a, index);
                if variants[0].fields.len() == 0 {
                    enum_read_tags_fit(variants.drop_first(), t)
                } else {
                    t < u64::MAX && enum_read_tags_fit(variants.drop_first(), (t + 1) as u64)
                }
            },
            Err(_) => true,
        }
    }
}

/// The write derive's running index over an enum never has to step past
/// `u64::MAX`: unit variants leave the index alone, and each variant with
/// fields has a tag below `u64::MAX`.
pub open spec fn enum_write_tags_fit(variants: Seq<Variant>, index: u64) -> bool
    decreases variants.len(),
{
    if variants.len() == 0 {
        true
    } else {
        match variants[0].attrs {
            Ok(a) => {
                if variants[0].fields.len() == 0 {
                    enum_write_tags_fit(variants.drop_first(), index)
                } else {
                    let t = resolve_tag(a, index);
                    t < u64::MAX && enum_write_tags_fit(variants.drop_first(), (t + 1) as u64)
                }
            },
            Err(_) => true,
        }
    }
}

proof fn lemma_variant_read_accepts(
    fields: Seq<FieldType>,
    tag: u64,
    variant: String,
    attr: crate::model::FieldAttributes,
)
    ensures
        variant_read_plans(fields, tag, variant, attr) is Ok <==> (!attr.ignore ==> forall|k: int|
            0 <= k < fields.len() ==> spec_read_plan(#[trigger] fields[k], attr, false) is Some),
    decreases fields.len(),
{
    if fields.len() == 0 {
        return;
    }
    let rest = fields.drop_first();
    lemma_variant_read_accepts(rest, tag, variant, attr);
    assert forall|k: int| 0 <= k < rest.len() implies rest[k] == fields[k + 1] by {}
    if !attr.ignore && spec_read_plan(fields[0], attr, false) is Some && (forall|k: int|
        0 <= k < rest.len() ==> spec_read_plan(#[trigger] rest[k], attr, false) is Some) {
        assert forall|k: int| 0 <= k < fields.len() implies spec_read_plan(
            #[trigger] fields[k],
            attr,
            false,
        ) is Some by {
            if k > 0 {
                assert(rest[k - 1] == fields[k]);
            }
        }
    }
}

proof fn lemma_variant_write_accepts(
    fields: Seq<FieldType>,
    position: nat,
    tag: u64,
    variant: String,
    attr: crate::model::FieldAttributes,
)
    ensures
        variant_write_plans(fields, position, tag, variant, attr) is Ok <==> (!attr.ignore
            ==> forall|k: int|
            0 <= k < fields.len() ==> spec_write_plan(#[trigger] fields[k], attr) is Some),
    decreases fields.len(),
{
    if fields.len() == 0 {
        return;
    }
    let rest = fields.drop_first();
    lemma_variant_write_accepts(rest, position + 1, tag, variant, attr);
    assert forall|k: int| 0 <= k < rest.len() implies rest[k] == fields[k + 1] by {}
    if !attr.ignore && spec_write_plan(fields[0], attr) is Some && (forall|k: int|
        0 <= k < rest.len() ==> spec_write_plan(#[trigger] rest[k], attr) is Some) {
        assert forall|k: int| 0 <= k < fields.len() implies spec_write_plan(
            #[trigger] fields[k],
            attr,
        ) is Some by {
            if k > 0 {
                assert(rest[k - 1] == fields[k]);
            }
        }
    }
}

/// The read derive accepts an enum exactly when every variant's attributes
/// parsed, every field of a variant that is not ignored has a type with a
/// read, and the tags fit below `u64::MAX`.
pub proof fn lemma_enum_read_accepts(variants: Seq<Variant>, index: u64)
    ensures
        enum_read_plans(variants, index) is Ok <==> (variant_attrs_parsed(variants)
            && variants_have_read(variants) && enum_read_tags_fit(variants, index)),
    decreases variants.len(),
{
    if variants.len() == 0 {
        return;
    }
    let v = variants[0];
    let rest = variants.drop_first();
    assert forall|j: int| 0 <= j < rest.len() implies rest[j] == variants[j + 1] by {}
    match v.attrs {
        Err(_) => {
            assert(!variant_attrs_parsed(variants));
        },
        Ok(attr) => {
            let next = if v.fields.len() == 0 {
                resolve_tag(attr, index)
            } else {
                (resolve_tag(attr, index) + 1) as u64
            };
            lemma_enum_read_accepts(rest, next);
            lemma_variant_read_accepts(v.fields@, resolve_tag(attr, index), v.ident, attr);
            if variant_attrs_parsed(rest) {
                assert forall|j: int| 0 <= j < variants.len() implies (#[trigger] variants[j]).attrs is Ok by {
                    if j > 0 {
                        assert(rest[j - 1] == variants[j]);
                    }
                }
            }
            let first_ok = !attr.ignore ==> forall|k: int|
                0 <= k < v.fields.len() ==> spec_read_plan(#[trigger] v.fields@[k], attr, false) is Some;
            if first_ok && variants_have_read(rest) {
                assert forall|j: int, k: int|
                    0 <= j < variants.len() && is_written((#[trigger] variants[j]).attrs) && 0 <= k
                        < variants[j].fields.len() implies #[trigger] spec_read_plan(variants[j].fields@[k], variants[j].attrs->Ok_0, false) is Some by {
                    if j > 0 {
                        assert(rest[j - 1] == variants[j]);
                    }
                }
            }
            if variants_have_read(variants) {
                assert forall|j: int, k: int|
                    0 <= j < rest.len() && is_written((#[trigger] rest[j]).attrs) && 0 <= k
                        < rest[j].fields.len() implies #[trigger] spec_read_plan(rest[j].fields@[k], rest[j].attrs->Ok_0, false) is Some by {
                    assert(rest[j] == variants[j + 1]);
                }
                if !attr.ignore {
                    assert forall|k: int| 0 <= k < v.fields.len() implies spec_read_plan(#[trigger] v.fields@[k], attr, false) is Some by {
                        assert(variants[0] == v);
                    }
                }
            }
        },
    }
}

/// The write derive accepts an enum exactly when every variant's attributes
/// parsed, every field of a variant that is not ignored has a type with a
/// write, and the tags fit below `u64::MAX`.
pub proof fn lemma_enum_write_accepts(variants: Seq<Variant>, index: u64)
    ensures
        enum_write_plans(variants, index) is Ok <==> (variant_attrs_parsed(variants)
            && variants_have_write(variants) && enum_write_tags_fit(variants, index)),
    decreases variants.len(),
{
    if variants.len() == 0 {
        return;
    }
    let v = variants[0];
    let rest = variants.drop_first();
    assert forall|j: int| 0 <= j < rest.len() implies rest[j] == variants[j + 1] by {}
    match v.attrs {
        Err(_) => {
            assert(!variant_attrs_parsed(variants));
        },
        Ok(attr) => {
            let next = if v.fields.len() == 0 {
                index
            } else {
                (resolve_tag(attr, index) + 1) as u64
            };
            lemma_enum_write_accepts(rest, next);
            lemma_variant_write_accepts(v.fields@, 0, resolve_tag(attr, index), v.ident, attr);
            if variant_attrs_parsed(rest) {
                assert forall|j: int| 0 <= j < variants.len() implies (#[trigger] variants[j]).attrs is Ok by {
                    if j > 0 {
                        assert(rest[j - 1] == variants[j]);
                    }
                }
            }
            let first_ok = !attr.ignore ==> forall|k: int|
                0 <= k < v.fields.len() ==> spec_write_plan(#[trigger] v.fields@[k], attr) is Some;
            if first_ok && variants_have_write(rest) {
                assert forall|j: int, k: int|
                    0 <= j < variants.len() && is_written((#[trigger] variants[j]).attrs) && 0 <= k
                        < variants[j].fields.len() implies #[trigger] spec_write_plan(variants[j].fields@[k], variants[j].attrs->Ok_0) is Some by {
                    if j > 0 {
                        assert(rest[j - 1] == variants[j]);
                    }
                }
            }
            if variants_have_write(variants) {
                assert forall|j: int, k: int|
                    0 <= j < rest.len() && is_written((#[trigger] rest[j]).attrs) && 0 <= k
                        < rest[j].fields.len() implies #[trigger] spec_write_plan(rest[j].fields@[k], rest[j].attrs->Ok_0) is Some by {
                    assert(rest[j] == variants[j + 1]);
                }
                if !attr.ignore {
                    assert forall|k: int| 0 <= k < v.fields.len() implies spec_write_plan(#[trigger] v.fields@[k], attr) is Some by {
                        assert(variants[0] == v);
                    }
                }
            }
        },
    }
}

} // verus!
