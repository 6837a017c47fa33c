//! What holds between the two derives: a value written by the generated
//! `write` is read back by the generated `read` under the same tag and with
//! the same encoding.
use vstd::prelude::*;

use crate::model::{is_ident, is_primitive, Field, FieldAttributes, FieldType,
    GenericArgument, PathArguments, Variant,
};
use crate::read::{
    enum_read_plans, spec_read_plan, struct_read_plans, variant_read_plans, ReadArm, ReadEnumArm,
};
use crate::write::{
    enum_write_plans, spec_write_plan, struct_write_plans, variant_write_plans, WriteArm,
    WriteEnumArm,
};

verus! {

/// The one type shape on which the derives disagree: a `Vec` (possibly inside
/// `Option`s) of a path that ends in `u8` but is not the plain identifier
/// `u8`, such as `Vec<core::primitive::u8>`. The write takes it for bytes,
/// the read for a packed field.
pub open spec fn bytes_mismatch(ty: FieldType) -> bool
    decreases ty,
{
    match ty {
        FieldType::Path(p) => {
            if is_primitive(p) || is_ident(p, "String"@) {
                false
            } else if p.last.ident@ == "Vec"@ {
                match p.last.arguments {
                    PathArguments::AngleBracketed(Some(arg)) => match *arg {
                        GenericArgument::Type(FieldType::Path(q)) => q.last.ident@ == "u8"@
                            && !is_ident(q, "u8"@),
                        _ => false,
                    },
                    _ => false,
                }
            } else if p.last.ident@ == "Option"@ {
                match p.last.arguments {
                    PathArguments::AngleBracketed(Some(arg)) => match *arg {
                        GenericArgument::Type(inner) => bytes_mismatch(inner),
                        GenericArgument::Other => false,
                    },
                    _ => false,
                }
            } else {
                false
            }
        },
        FieldType::Other(_) => false,
    }
}

/// Whether the attributes parsed and do not leave the field out.
pub open spec fn is_written(attrs: Result<FieldAttributes, String>) -> bool {
    match attrs {
        Ok(a) => !a.ignore,
        Err(_) => false,
    }
}

/// Where both derives handle a type, the read wraps the value in `Some`
/// exactly where the write looks inside an `Option` (or the value already sits
/// in one), and, but for the `Vec` of a qualified `u8` path, the read decodes
/// the encoding the write encodes.
pub proof fn lemma_field_encodings_agree(ty: FieldType, attr: FieldAttributes, is_option: bool)
    requires
        spec_read_plan(ty, attr, is_option) is Some,
        spec_write_plan(ty, attr) is Some,
    ensures
        spec_read_plan(ty, attr, is_option).unwrap().optional == (is_option || spec_write_plan(
            ty,
            attr,
        ).unwrap().1 > 0),
        !bytes_mismatch(ty) ==> spec_read_plan(ty, attr, is_option).unwrap().encoding
            == spec_write_plan(ty, attr).unwrap().0,
    decreases ty,
{
    match ty {
        FieldType::Path(p) => {
            if is_primitive(p) || is_ident(p, "String"@) {
            } else if p.last.ident@ == "Vec"@ {
            } else if p.last.ident@ == "Option"@ {
                match p.last.arguments {
                    PathArguments::AngleBracketed(Some(arg)) => match *arg {
                        GenericArgument::Type(inner) => {
                            lemma_field_encodings_agree(inner, attr, true);
                        },
                        GenericArgument::Other => {},
                    },
                    _ => {},
                }
            } else {
            }
        },
        FieldType::Other(_) => {},
    }
}

/// A read arm and a write statement handle the same field under the same tag,
/// with `Some` exactly where the write looks inside an `Option`.
pub open spec fn struct_arms_align(r: ReadArm, w: WriteArm) -> bool {
    &&& r.tag == w.tag
    &&& r.field == w.field
    &&& r.plan.optional == (w.depth > 0)
}

/// No field that goes into the message is a `Vec` of a qualified `u8` path.
pub open spec fn fields_without_mismatch(fields: Seq<Field>) -> bool {
    forall|j: int|
        0 <= j < fields.len() && is_written(#[trigger] fields[j].attrs) ==> !bytes_mismatch(
            fields[j].ty,
        )
}

/// For a struct that both derives accept, the `read` has an arm for exactly
/// the fields that the `write` writes, in the same order: the same field under
/// the same tag, with `Some` exactly where the write looks inside an `Option`.
/// Unless a field is a `Vec` of a qualified `u8` path, each arm also reads the
/// encoding its statement writes.
pub proof fn lemma_struct_read_write_agree(fields: Seq<Field>, index: u64)
    requires
        struct_read_plans(fields, index) is Ok,
        struct_write_plans(fields, index) is Ok,
    ensures
        struct_read_plans(fields, index)->Ok_0.len() == struct_write_plans(fields, index)->Ok_0.len(),
        forall|k: int|
            0 <= k < struct_read_plans(fields, index)->Ok_0.len() ==> struct_arms_align(
                #[trigger] struct_read_plans(fields, index)->Ok_0[k],
                struct_write_plans(fields, index)->Ok_0[k],
            ),
        fields_without_mismatch(fields) ==> forall|k: int|
            0 <= k < struct_read_plans(fields, index)->Ok_0.len() ==> (#[trigger] struct_read_plans(
                fields,
                index,
            )->Ok_0[k]).plan.encoding == struct_write_plans(fields, index)->Ok_0[k].encoding,
    decreases fields.len(),
{
    if fields.len() == 0 {
        return;
    }
    let field = fields[0];
    let rest = fields.drop_first();
    if fields_without_mismatch(fields) {
        assert forall|j: int| 0 <= j < rest.len() && is_written(#[trigger] rest[j].attrs) implies !bytes_mismatch(
            rest[j].ty,
        ) by {
            assert(rest[j] == fields[j + 1]);
        }
    }
    let r = struct_read_plans(fields, index)->Ok_0;
    let w = struct_write_plans(fields, index)->Ok_0;
    match field.attrs {
        Err(_) => {},
        Ok(attr) => {
            if attr.ignore {
                lemma_struct_read_write_agree(rest, index);
                assert(r == struct_read_plans(rest, index)->Ok_0);
                assert(w == struct_write_plans(rest, index)->Ok_0);
            } else {
                let tag = crate::model::resolve_tag(attr, index);
                let next = (tag + 1) as u64;
                lemma_struct_read_write_agree(rest, next);
                lemma_field_encodings_agree(field.ty, attr, false);
                if fields_without_mismatch(fields) {
                    assert(is_written(fields[0].attrs));
                }
                let rp = spec_read_plan(field.ty, attr, false).unwrap();
                let (e, d) = spec_write_plan(field.ty, attr).unwrap();
                let ra = ReadArm { tag, field: field.ident, plan: rp };
                let wa = WriteArm { tag, field: field.ident, encoding: e, depth: d };
                let rr = struct_read_plans(rest, next)->Ok_0;
                let ww = struct_write_plans(rest, next)->Ok_0;
                assert(r == seq![ra] + rr);
                assert(w == seq![wa] + ww);
                assert forall|k: int| 0 <= k < r.len() implies struct_arms_align(#[trigger] r[k], w[k])
                    && (fields_without_mismatch(fields) ==> r[k].plan.encoding == w[k].encoding) by {
                    if k > 0 {
                        assert(r[k] == rr[k - 1]);
                        assert(w[k] == ww[k - 1]);
                    } else {
                        assert(r[k] == ra);
                        assert(w[k] == wa);
                    }
                }
            }
        },
    }
}

/// A read arm and a write arm of an enum handle the same variant under the
/// same tag; for a field, with `Some` exactly where the write looks inside an
/// `Option`.
pub open spec fn enum_arms_align(r: ReadEnumArm, w: WriteEnumArm) -> bool {
    match r {
        ReadEnumArm::Unit { tag, variant } => w matches WriteEnumArm::Unit { tag: t, variant: v }
            && t == tag && v == variant,
        ReadEnumArm::Field { tag, variant, plan } => w matches WriteEnumArm::Field {
            tag: t,
            variant: v,
            depth,
            ..
        } && t == tag && v == variant && plan.optional == (depth > 0),
    }
}

/// A read arm and a write arm of an enum read and write the same encoding
/// (both unit arms, or both fields of the same encoding).
pub open spec fn enum_arms_same_encoding(r: ReadEnumArm, w: WriteEnumArm) -> bool {
    match r {
        ReadEnumArm::Unit { .. } => w is Unit,
        ReadEnumArm::Field { plan, .. } => w matches WriteEnumArm::Field { encoding, .. }
            && plan.encoding == encoding,
    }
}

/// Whether the attributes parsed and carry an explicit tag.
pub open spec fn has_explicit_tag(attrs: Result<FieldAttributes, String>) -> bool {
    match attrs {
        Ok(a) => a.tag is Some,
        Err(_) => false,
    }
}

/// No field of a variant that is not ignored is a `Vec` of a qualified `u8`
/// path.
pub open spec fn variants_without_mismatch(variants: Seq<Variant>) -> bool {
    forall|j: int, k: int|
        0 <= j < variants.len() && is_written((#[trigger] variants[j]).attrs) && 0 <= k
            < variants[j].fields.len() ==> !bytes_mismatch(#[trigger] variants[j].fields@[k])
}

/// The arms of one variant with fields agree between the derives.
proof fn lemma_variant_read_write_agree(
    fields: Seq<FieldType>,
    position: nat,
    tag: u64,
    variant: String,
    attr: FieldAttributes,
)
    requires
        variant_read_plans(fields, tag, variant, attr) is Ok,
        variant_write_plans(fields, position, tag, variant, attr) is Ok,
    ensures
        variant_read_plans(fields, tag, variant, attr)->Ok_0.len() == variant_write_plans(
            fields,
            position,
            tag,
            variant,
            attr,
        )->Ok_0.len(),
        forall|k: int|
            0 <= k < variant_read_plans(fields, tag, variant, attr)->Ok_0.len() ==> enum_arms_align(
                #[trigger] variant_read_plans(fields, tag, variant, attr)->Ok_0[k],
                variant_write_plans(fields, position, tag, variant, attr)->Ok_0[k],
            ),
        (!attr.ignore ==> forall|j: int| 0 <= j < fields.len() ==> !bytes_mismatch(#[trigger] fields[j]))
            ==> forall|k: int|
            0 <= k < variant_read_plans(fields, tag, variant, attr)->Ok_0.len()
                ==> enum_arms_same_encoding(
                #[trigger] variant_read_plans(fields, tag, variant, attr)->Ok_0[k],
                variant_write_plans(fields, position, tag, variant, attr)->Ok_0[k],
            ),
    decreases fields.len(),
{
    if fields.len() == 0 {
        return;
    }
    let rest = fields.drop_first();
    let hyp = !attr.ignore ==> forall|j: int| 0 <= j < fields.len() ==> !bytes_mismatch(#[trigger] fields[j]);
    if hyp && !attr.ignore {
        assert forall|j: int| 0 <= j < rest.len() implies !bytes_mismatch(#[trigger] rest[j]) by {
            assert(rest[j] == fields[j + 1]);
        }
    }
    lemma_variant_read_write_agree(rest, position + 1, tag, variant, attr);
    let r = variant_read_plans(fields, tag, variant, attr)->Ok_0;
    let w = variant_write_plans(fields, position, tag, variant, attr)->Ok_0;
    let rr = variant_read_plans(rest, tag, variant, attr)->Ok_0;
    let ww = variant_write_plans(rest, position + 1, tag, variant, attr)->Ok_0;
    if attr.ignore {
        assert(r == rr);
        assert(w == ww);
    } else {
        if hyp {
            assert(!bytes_mismatch(fields[0]));
        }
        lemma_field_encodings_agree(fields[0], attr, false);
        let plan = spec_read_plan(fields[0], attr, false).unwrap();
        let (encoding, depth) = spec_write_plan(fields[0], attr).unwrap();
        let ra = ReadEnumArm::Field { tag, variant, plan };
        let wa = WriteEnumArm::Field { tag, variant, position, encoding, depth };
        assert(r == seq![ra] + rr);
        assert(w == seq![wa] + ww);
        assert forall|k: int| 0 <= k < r.len() implies enum_arms_align(#[trigger] r[k], w[k]) && (hyp
            ==> enum_arms_same_encoding(r[k], w[k])) by {
            if k > 0 {
                assert(r[k] == rr[k - 1]);
                assert(w[k] == ww[k - 1]);
            } else {
                assert(r[k] == ra);
                assert(w[k] == wa);
            }
        }
    }
}

/// For an enum that both derives accept and whose unit variants carry no
/// explicit tag, the `read` and the `write` have the same arms in the same
/// order: each unit variant under the same tag, and each field that is not
/// ignored under the same tag, with `Some` exactly where the write looks
/// inside an `Option`. Unless such a field is a `Vec` of a qualified `u8`
/// path, each arm also reads the encoding its counterpart writes.
pub proof fn lemma_enum_read_write_agree(variants: Seq<Variant>, index: u64)
    requires
        enum_read_plans(variants, index) is Ok,
        enum_write_plans(variants, index) is Ok,
        forall|j: int|
            0 <= j < variants.len() && (#[trigger] variants[j]).fields.len() == 0
                ==> !has_explicit_tag(variants[j].attrs),
    ensures
        enum_read_plans(variants, index)->Ok_0.len() == enum_write_plans(variants, index)->Ok_0.len(),
        forall|k: int|
            0 <= k < enum_read_plans(variants, index)->Ok_0.len() ==> enum_arms_align(
                #[trigger] enum_read_plans(variants, index)->Ok_0[k],
                enum_write_plans(variants, index)->Ok_0[k],
            ),
        variants_without_mismatch(variants) ==> forall|k: int|
            0 <= k < enum_read_plans(variants, index)->Ok_0.len() ==> enum_arms_same_encoding(
                #[trigger] enum_read_plans(variants, index)->Ok_0[k],
                enum_write_plans(variants, index)->Ok_0[k],
            ),
    decreases variants.len(),
{
    if variants.len() == 0 {
        return;
    }
    let v = variants[0];
    let rest = variants.drop_first();
    let hyp = variants_without_mismatch(variants);
    assert forall|j: int|
        0 <= j < rest.len() && (#[trigger] rest[j]).fields.len() == 0 implies !has_explicit_tag(
        rest[j].attrs,
    ) by {
        assert(rest[j] == variants[j + 1]);
    }
    if hyp {
        assert forall|j: int, k: int|
            0 <= j < rest.len() && is_written((#[trigger] rest[j]).attrs) && 0 <= k
                < rest[j].fields.len() implies !bytes_mismatch(#[trigger] rest[j].fields@[k]) by {
            assert(rest[j] == variants[j + 1]);
        }
    }
    let r = enum_read_plans(variants, index)->Ok_0;
    let w = enum_write_plans(variants, index)->Ok_0;
    match v.attrs {
        Err(_) => {},
        Ok(attr) => {
            let tag = crate::model::resolve_tag(attr, index);
            if v.fields.len() == 0 {
                assert(variants[0] == v);
                assert(!has_explicit_tag(v.attrs));
                assert(tag == index);
                lemma_enum_read_write_agree(rest, index);
                let rr = enum_read_plans(rest, index)->Ok_0;
                let ww = enum_write_plans(rest, index)->Ok_0;
                let ra = ReadEnumArm::Unit { tag, variant: v.ident };
                let wa = WriteEnumArm::Unit { tag: index, variant: v.ident };
                assert(r == seq![ra] + rr);
                assert(w == seq![wa] + ww);
                assert forall|k: int| 0 <= k < r.len() implies enum_arms_align(#[trigger] r[k], w[k])
                    && (hyp ==> enum_arms_same_encoding(r[k], w[k])) by {
                    if k > 0 {
                        assert(r[k] == rr[k - 1]);
                        assert(w[k] == ww[k - 1]);
                    } else {
                        assert(r[k] == ra);
                        assert(w[k] == wa);
                    }
                }
            } else {
                let next = (tag + 1) as u64;
                if hyp && !attr.ignore {
                    assert forall|k: int| 0 <= k < v.fields@.len() implies !bytes_mismatch(
                        #[trigger] v.fields@[k],
                    ) by {
                        assert(variants[0] == v);
                        assert(is_written(variants[0].attrs));
                        assert(!bytes_mismatch(variants[0].fields@[k]));
                    }
                }
                lemma_variant_read_write_agree(v.fields@, 0, tag, v.ident, attr);
                lemma_enum_read_write_agree(rest, next);
                let vs = variant_read_plans(v.fields@, tag, v.ident, attr)->Ok_0;
                let ws = variant_write_plans(v.fields@, 0, tag, v.ident, attr)->Ok_0;
                let rr = enum_read_plans(rest, next)->Ok_0;
                let ww = enum_write_plans(rest, next)->Ok_0;
                assert(r == vs + rr);
                assert(w == ws + ww);
                assert forall|k: int| 0 <= k < r.len() implies enum_arms_align(#[trigger] r[k], w[k])
                    && (hyp ==> enum_arms_same_encoding(r[k], w[k])) by {
                    if k < vs.len() {
                        assert(r[k] == vs[k]);
                        assert(w[k] == ws[k]);
                    } else {
                        assert(r[k] == rr[k - vs.len()]);
                        assert(w[k] == ww[k - vs.len()]);
                    }
                }
            }
        },
    }
}

/// The names of the fields that go into the message, in declaration order.
pub open spec fn message_fields(fields: Seq<Field>) -> Seq<String>
    decreases fields.len(),
{
    if fields.len() == 0 {
        Seq::empty()
    } else if is_written(fields[0].attrs) {
        seq![fields[0].ident] + message_fields(fields.drop_first())
    } else {
        message_fields(fields.drop_first())
    }
}

/// Without explicit tags, the fields of a struct are numbered consecutively
/// from `index` in declaration order, ignored fields left out: the `k`-th arm
/// of the `read` and the `k`-th statement of the `write` are under tag
/// `index + k`.
pub proof fn lemma_struct_tags_consecutive(fields: Seq<Field>, index: u64)
    requires
        forall|j: int| 0 <= j < fields.len() ==> !has_explicit_tag(#[trigger] fields[j].attrs),
    ensures
        struct_read_plans(fields, index) is Ok ==> forall|k: int|
            0 <= k < struct_read_plans(fields, index)->Ok_0.len() ==> (#[trigger] struct_read_plans(
                fields,
                index,
            )->Ok_0[k]).tag == index + k,
        struct_write_plans(fields, index) is Ok ==> forall|k: int|
            0 <= k < struct_write_plans(fields, index)->Ok_0.len() ==> (
            #[trigger] struct_write_plans(fields, index)->Ok_0[k]).tag == index + k,
    decreases fields.len(),
{
    if fields.len() == 0 {
        return;
    }
    let rest = fields.drop_first();
    assert forall|j: int| 0 <= j < rest.len() implies !has_explicit_tag(#[trigger] rest[j].attrs) by {
        assert(rest[j] == fields[j + 1]);
    }
    assert(!has_explicit_tag(fields[0].attrs));
    match fields[0].attrs {
        Err(_) => {},
        Ok(attr) => {
            if attr.ignore {
                lemma_struct_tags_consecutive(rest, index);
            } else if index < u64::MAX {
                let next = (index + 1) as u64;
                lemma_struct_tags_consecutive(rest, next);
                if struct_read_plans(fields, index) is Ok {
                    let r = struct_read_plans(fields, index)->Ok_0;
                    let rr = struct_read_plans(rest, next)->Ok_0;
                    assert(r == seq![r[0]] + rr);
                    assert forall|k: int| 0 <= k < r.len() implies (#[trigger] r[k]).tag == index
                        + k by {
                        if k > 0 {
                            assert(r[k] == rr[k - 1]);
                        }
                    }
                }
                if struct_write_plans(fields, index) is Ok {
                    let w = struct_write_plans(fields, index)->Ok_0;
                    let ww = struct_write_plans(rest, next)->Ok_0;
                    assert(w == seq![w[0]] + ww);
                    assert forall|k: int| 0 <= k < w.len() implies (#[trigger] w[k]).tag == index
                        + k by {
                        if k > 0 {
                            assert(w[k] == ww[k - 1]);
                        }
                    }
                }
            }
        },
    }
}

/// A struct's `read` has one arm for each field that is not ignored, and its
/// `write` one statement for each, in declaration order.
pub proof fn lemma_struct_fields_in_order(fields: Seq<Field>, index: u64)
    ensures
        struct_read_plans(fields, index) is Ok ==> struct_read_plans(fields, index)->Ok_0.map_values(
            |a: ReadArm| a.field,
        ) == message_fields(fields),
        struct_write_plans(fields, index) is Ok ==> struct_write_plans(
            fields,
            index,
        )->Ok_0.map_values(|a: WriteArm| a.field) == message_fields(fields),
    decreases fields.len(),
{
    if fields.len() == 0 {
        assert(struct_read_plans(fields, index)->Ok_0.map_values(|a: ReadArm| a.field)
            =~= Seq::<String>::empty());
        assert(struct_write_plans(fields, index)->Ok_0.map_values(|a: WriteArm| a.field)
            =~= Seq::<String>::empty());
        return;
    }
    let rest = fields.drop_first();
    match fields[0].attrs {
        Err(_) => {},
        Ok(attr) => {
            if attr.ignore {
                lemma_struct_fields_in_order(rest, index);
            } else {
                let next = (crate::model::resolve_tag(attr, index) + 1) as u64;
                lemma_struct_fields_in_order(rest, next);
                if struct_read_plans(fields, index) is Ok {
                    let r = struct_read_plans(fields, index)->Ok_0;
                    let rr = struct_read_plans(rest, next)->Ok_0;
                    assert(r == seq![r[0]] + rr);
                    assert(r.map_values(|a: ReadArm| a.field) =~= seq![fields[0].ident]
                        + rr.map_values(|a: ReadArm| a.field));
                }
                if struct_write_plans(fields, index) is Ok {
                    let w = struct_write_plans(fields, index)->Ok_0;
                    let ww = struct_write_plans(rest, next)->Ok_0;
                    assert(w == seq![w[0]] + ww);
                    assert(w.map_values(|a: WriteArm| a.field) =~= seq![fields[0].ident]
                        + ww.map_values(|a: WriteArm| a.field));
                }
            }
        },
    }
}

} // verus!
