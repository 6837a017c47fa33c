//! What the generated code does with one field, stated with the calls it
//! makes: which read or write method a field type and its attributes get,
//! how an `Option` wraps its content, and how an enum variant's read and
//! write relate to a struct field's.
use vstd::prelude::*;

use crate::laws::is_written;
use crate::model::{
    resolve_tag, Field, FieldAttributes, FieldType, GenericArgument, PathArguments, TypePath,
};
use crate::read::{
    enum_read_arm_text, enum_read_expr_text, spec_read_plan, struct_read_arm_text,
    struct_read_plans, variant_read_plans, ReadEnumArm,
};
use crate::text::{decimal, tag_text};
use crate::write::{
    enum_write_arm_text, spec_write_plan, struct_write_plans, variant_write_plans, write_stmt_text,
    WriteEnumArm,
};

verus! {

/// The read arm that `field_type_to_read_method` gives a struct field.
pub open spec fn read_arm(
    ty: FieldType,
    attr: FieldAttributes,
    is_option: bool,
    index: u64,
    name: Seq<char>,
) -> Option<Seq<char>> {
    match spec_read_plan(ty, attr, is_option) {
        Some(plan) => Some(struct_read_arm_text(resolve_tag(attr, index), name, plan)),
        None => None,
    }
}

/// The expression that `field_type_to_read_enum` gives an enum variant.
pub open spec fn read_expr(
    ty: FieldType,
    attr: FieldAttributes,
    is_option: bool,
    enum_name: Seq<char>,
    variant: Seq<char>,
) -> Option<Seq<char>> {
    match spec_read_plan(ty, attr, is_option) {
        Some(plan) => Some(enum_read_expr_text(enum_name, variant, plan)),
        None => None,
    }
}

/// The statement that `field_type_to_write_method` gives a value.
pub open spec fn write_stmt(
    ty: FieldType,
    attr: FieldAttributes,
    index: u64,
    name: Seq<char>,
    is_binding: bool,
) -> Option<Seq<char>> {
    match spec_write_plan(ty, attr) {
        Some((e, d)) => Some(write_stmt_text(e, d, name, resolve_tag(attr, index), is_binding)),
        None => None,
    }
}

/// The tag a field is written under: its explicit tag, else the index.
pub open spec fn tag_of(attr: FieldAttributes, index: u64) -> u64 {
    match attr.tag {
        Some(t) => t,
        None => index,
    }
}

/// A path that is a single identifier: no `::` in front, one segment, no
/// arguments.
pub open spec fn plain(p: TypePath) -> bool {
    !p.leading_colon && p.prefix.len() == 0 && p.last.arguments is Empty
}

/// The thirteen scalar type names.
pub open spec fn scalar_name(s: Seq<char>) -> bool {
    ||| s == "u8"@
    ||| s == "i8"@
    ||| s == "u16"@
    ||| s == "i16"@
    ||| s == "u32"@
    ||| s == "i32"@
    ||| s == "f32"@
    ||| s == "u64"@
    ||| s == "i64"@
    ||| s == "f64"@
    ||| s == "usize"@
    ||| s == "isize"@
    ||| s == "bool"@
}

/// The read call of a scalar: zig-zag when `signed`, else fixed width when
/// `fixed`, else a plain varint.
pub open spec fn scalar_read_call(attr: FieldAttributes) -> Seq<char> {
    if attr.signed {
        "pb.read_s_varint()"@
    } else if attr.fixed {
        "pb.read_fixed()"@
    } else {
        "pb.read_varint()"@
    }
}

/// The write method of a scalar, chosen as its read call is.
pub open spec fn scalar_write_method(attr: FieldAttributes) -> Seq<char> {
    if attr.signed {
        "pbf.write_s_varint_field"@
    } else if attr.fixed {
        "pbf.write_fixed_field"@
    } else {
        "pbf.write_varint_field"@
    }
}

/// A value read as `call`, wrapped in `Some` inside an `Option`.
pub open spec fn wrapped(call: Seq<char>, is_option: bool) -> Seq<char> {
    if is_option {
        "Some("@ + call + ")"@
    } else {
        call
    }
}

/// The value a write hands over by value: a binding is dereferenced, a
/// field is taken from `self`.
pub open spec fn by_value(name: Seq<char>, is_binding: bool) -> Seq<char> {
    if is_binding {
        "*"@ + name
    } else {
        "self."@ + name
    }
}

/// A plain scalar field (`u8` ... `bool`) is read with the scalar call its
/// attributes choose, wrapped in `Some` inside an `Option`, into the field,
/// under its explicit tag or else the index.
pub proof fn lemma_scalar_read_arm(
    p: TypePath,
    attr: FieldAttributes,
    is_option: bool,
    index: u64,
    name: Seq<char>,
)
    requires
        plain(p),
        scalar_name(p.last.ident@),
    ensures
        read_arm(FieldType::Path(p), attr, is_option, index, name) == Some(
            tag_text(tag_of(attr, index)) + " => self."@ + name + " = "@ + wrapped(
                scalar_read_call(attr),
                is_option,
            ) + ","@,
        ),
{
}

/// A plain scalar in an enum variant builds the variant from the same call.
pub proof fn lemma_scalar_read_expr(
    p: TypePath,
    attr: FieldAttributes,
    is_option: bool,
    enum_name: Seq<char>,
    variant: Seq<char>,
)
    requires
        plain(p),
        scalar_name(p.last.ident@),
    ensures
        read_expr(FieldType::Path(p), attr, is_option, enum_name, variant) == Some(
            enum_name + "::"@ + variant + "("@ + wrapped(scalar_read_call(attr), is_option) + ")"@,
        ),
{
}

/// A plain scalar is written by value with the scalar method its attributes
/// choose, under its explicit tag or else the index.
pub proof fn lemma_scalar_write_stmt(
    p: TypePath,
    attr: FieldAttributes,
    index: u64,
    name: Seq<char>,
    is_binding: bool,
)
    requires
        plain(p),
        scalar_name(p.last.ident@),
    ensures
        write_stmt(FieldType::Path(p), attr, index, name, is_binding) == Some(
            scalar_write_method(attr) + "("@ + tag_text(tag_of(attr, index)) + ", "@ + by_value(
                name,
                is_binding,
            ) + ");"@,
        ),
{
}

/// The path `Option<inner>`.
pub open spec fn option_of(p: TypePath, inner: FieldType) -> bool {
    &&& p.last.ident@ == "Option"@
    &&& p.last.arguments == PathArguments::AngleBracketed(
        Some(Box::new(GenericArgument::Type(inner))),
    )
}

/// A struct field of type `Option<T>` is read as a `T` inside an `Option`:
/// the same arm as the content type gets when it sits in one.
pub proof fn lemma_option_read_arm(
    p: TypePath,
    inner: FieldType,
    attr: FieldAttributes,
    is_option: bool,
    index: u64,
    name: Seq<char>,
)
    requires
        option_of(p, inner),
    ensures
        read_arm(FieldType::Path(p), attr, is_option, index, name) == read_arm(
            inner,
            attr,
            true,
            index,
            name,
        ),
        read_expr(FieldType::Path(p), attr, is_option, name, name) == read_expr(
            inner,
            attr,
            true,
            name,
            name,
        ),
{
    reveal_strlit("Option");
    reveal_strlit("Vec");
    assert("Option"@ != "Vec"@) by {
        assert("Option"@.len() != "Vec"@.len());
    }
    assert(!crate::model::is_primitive(p));
    assert(!crate::model::is_ident(p, "String"@));
    assert(spec_read_plan(FieldType::Path(p), attr, is_option) == spec_read_plan(inner, attr, true));
}

/// Inside an `Option` the value read is the one read outside of it, wrapped
/// in `Some`; the rest of the arm is the same. (`Option<T>` itself is read as
/// its content, see [`lemma_option_read_arm`].)
pub proof fn lemma_optional_wraps_in_some(
    ty: FieldType,
    attr: FieldAttributes,
    index: u64,
    name: Seq<char>,
)
    requires
        !(ty matches FieldType::Path(p) && p.last.ident@ == "Option"@),
    ensures
        read_arm(ty, attr, false, index, name) is Some <==> read_arm(ty, attr, true, index, name) is Some,
        read_arm(ty, attr, false, index, name) is Some ==> exists|pre: Seq<char>, v: Seq<char>, post: Seq<char>|
            read_arm(ty, attr, false, index, name) == Some(pre + v + post) && read_arm(
                ty,
                attr,
                true,
                index,
                name,
            ) == Some(pre + ("Some("@ + v + ")"@) + post),
{
    if let Some(plan) = spec_read_plan(ty, attr, false) {
        let plan_t = spec_read_plan(ty, attr, true).unwrap();
        assert(plan_t.encoding == plan.encoding && plan_t.message_type == plan.message_type);
        assert(plan_t.optional && !plan.optional);
        let tag = resolve_tag(attr, index);
        let v = crate::read::read_call_text(plan.encoding);
        if plan.encoding is Message {
            let pre = tag_text(tag) + " => { let mut nested_value = "@ + plan.message_type@
                + "::default(); pb.read_message(&mut nested_value); self."@ + name + " = "@;
            let post = "; }"@;
            assert(read_arm(ty, attr, false, index, name) == Some(pre + v + post));
            assert(read_arm(ty, attr, true, index, name) == Some(pre + ("Some("@ + v + ")"@) + post));
        } else {
            let pre = tag_text(tag) + " => self."@ + name + " = "@;
            let post = ","@;
            assert(read_arm(ty, attr, false, index, name) == Some(pre + v + post));
            assert(read_arm(ty, attr, true, index, name) == Some(pre + ("Some("@ + v + ")"@) + post));
        }
    }
}

/// An enum variant is built from the very value a struct field of the same
/// type and attributes is set to, read the same way.
pub proof fn lemma_enum_read_matches_struct_read(
    ty: FieldType,
    attr: FieldAttributes,
    is_option: bool,
    index: u64,
    field: Seq<char>,
    enum_name: Seq<char>,
    variant: Seq<char>,
)
    ensures
        read_arm(ty, attr, is_option, index, field) is Some <==> read_expr(
            ty,
            attr,
            is_option,
            enum_name,
            variant,
        ) is Some,
        read_arm(ty, attr, is_option, index, field) is Some ==> exists|v: Seq<char>|
            #![trigger v.len()]
            {
            ||| {
                &&& read_arm(ty, attr, is_option, index, field) == Some(
                    tag_text(tag_of(attr, index)) + " => self."@ + field + " = "@ + v + ","@,
                )
                &&& read_expr(ty, attr, is_option, enum_name, variant) == Some(
                    enum_name + "::"@ + variant + "("@ + v + ")"@,
                )
            }
            ||| exists|t: Seq<char>|
                #![trigger t.len()]
                {
                &&& read_arm(ty, attr, is_option, index, field) == Some(
                    tag_text(tag_of(attr, index)) + " => { let mut nested_value = "@ + t
                        + "::default(); pb.read_message(&mut nested_value); self."@ + field
                        + " = "@ + v + "; }"@,
                )
                &&& read_expr(ty, attr, is_option, enum_name, variant) == Some(
                    "{ let mut nested_value = "@ + t
                        + "::default(); pb.read_message(&mut nested_value); "@ + enum_name + "::"@
                        + variant + "("@ + v + ") }"@,
                )
            }
        },
{
    if let Some(plan) = spec_read_plan(ty, attr, is_option) {
        let v = crate::read::read_value_text(plan);
        assert(v.len() == v.len());
        if plan.encoding is Message {
            let t = plan.message_type@;
            assert(t.len() == t.len());
            assert(read_arm(ty, attr, is_option, index, field) == Some(
                tag_text(tag_of(attr, index)) + " => { let mut nested_value = "@ + t
                    + "::default(); pb.read_message(&mut nested_value); self."@ + field + " = "@
                    + v + "; }"@,
            ));
        } else {
            assert(read_arm(ty, attr, is_option, index, field) == Some(
                tag_text(tag_of(attr, index)) + " => self."@ + field + " = "@ + v + ","@,
            ));
        }
    }
}

/// A struct field or binding of type `Option<T>` is written by checking that
/// it is present and writing its content, bound to the same name, exactly as
/// a binding of type `T` is written.
pub proof fn lemma_option_write_stmt(
    p: TypePath,
    inner: FieldType,
    attr: FieldAttributes,
    index: u64,
    name: Seq<char>,
    is_binding: bool,
)
    requires
        option_of(p, inner),
    ensures
        write_stmt(FieldType::Path(p), attr, index, name, is_binding) == match write_stmt(
            inner,
            attr,
            index,
            name,
            true,
        ) {
            Some(s) => Some(
                "if let Some("@ + name + ") = &"@ + (if is_binding {
                    name
                } else {
                    "self."@ + name
                }) + " { "@ + s + " }"@,
            ),
            None => None,
        },
{
    reveal_strlit("Option");
    reveal_strlit("Vec");
    assert("Option"@ != "Vec"@) by {
        assert("Option"@.len() != "Vec"@.len());
    }
    assert(!crate::model::is_primitive(p));
    assert(!crate::model::is_ident(p, "String"@));
    if let Some((e, d)) = spec_write_plan(inner, attr) {
        assert(spec_write_plan(FieldType::Path(p), attr) == Some((e, d + 1)));
        assert(((d + 1) as nat - 1) as nat == d);
    }
}

/// The fields of a struct that go into the message, in declaration order.
pub open spec fn written_fields(fields: Seq<Field>) -> Seq<Field>
    decreases fields.len(),
{
    if fields.len() == 0 {
        Seq::empty()
    } else if is_written(fields[0].attrs) {
        seq![fields[0]] + written_fields(fields.drop_first())
    } else {
        written_fields(fields.drop_first())
    }
}

/// Each arm of a struct's `read` is the read arm its field gets on its own
/// (see [`read_arm`]), and each statement of its `write` the statement its
/// field gets on its own (see [`write_stmt`]), in the order of the fields
/// that go into the message.
pub proof fn lemma_struct_arms_are_field_arms(fields: Seq<Field>, index: u64)
    ensures
        struct_read_plans(fields, index) is Ok ==> {
            let r = struct_read_plans(fields, index)->Ok_0;
            let wf = written_fields(fields);
            &&& r.len() == wf.len()
            &&& forall|k: int|
                0 <= k < r.len() ==> Some(
                    struct_read_arm_text((#[trigger] r[k]).tag, r[k].field@, r[k].plan),
                ) == read_arm(wf[k].ty, wf[k].attrs->Ok_0, false, r[k].tag, wf[k].ident@)
        },
        struct_write_plans(fields, index) is Ok ==> {
            let w = struct_write_plans(fields, index)->Ok_0;
            let wf = written_fields(fields);
            &&& w.len() == wf.len()
            &&& forall|k: int|
                0 <= k < w.len() ==> Some(
                    write_stmt_text(
                        (#[trigger] w[k]).encoding,
                        w[k].depth,
                        w[k].field@,
                        w[k].tag,
                        false,
                    ),
                ) == write_stmt(wf[k].ty, wf[k].attrs->Ok_0, w[k].tag, wf[k].ident@, false)
        },
    decreases fields.len(),
{
    if fields.len() == 0 {
        return;
    }
    let rest = fields.drop_first();
    match fields[0].attrs {
        Err(_) => {},
        Ok(attr) => {
            if attr.ignore {
                lemma_struct_arms_are_field_arms(rest, index);
            } else {
                let next = (resolve_tag(attr, index) + 1) as u64;
                lemma_struct_arms_are_field_arms(rest, next);
                let wf = written_fields(fields);
                let wr = written_fields(rest);
                assert(wf == seq![fields[0]] + wr);
                if struct_read_plans(fields, index) is Ok {
                    let r = struct_read_plans(fields, index)->Ok_0;
                    let rr = struct_read_plans(rest, next)->Ok_0;
                    assert(r == seq![r[0]] + rr);
                    assert forall|k: int| 0 <= k < r.len() implies Some(
                        struct_read_arm_text((#[trigger] r[k]).tag, r[k].field@, r[k].plan),
                    ) == read_arm(wf[k].ty, wf[k].attrs->Ok_0, false, r[k].tag, wf[k].ident@) by {
                        if k > 0 {
                            assert(r[k] == rr[k - 1]);
                            assert(wf[k] == wr[k - 1]);
                        } else {
                            assert(wf[0] == fields[0]);
                        }
                    }
                }
                if struct_write_plans(fields, index) is Ok {
                    let w = struct_write_plans(fields, index)->Ok_0;
                    let ww = struct_write_plans(rest, next)->Ok_0;
                    assert(w == seq![w[0]] + ww);
                    assert forall|k: int| 0 <= k < w.len() implies Some(
                        write_stmt_text(
                            (#[trigger] w[k]).encoding,
                            w[k].depth,
                            w[k].field@,
                            w[k].tag,
                            false,
                        ),
                    ) == write_stmt(wf[k].ty, wf[k].attrs->Ok_0, w[k].tag, wf[k].ident@, false) by {
                        if k > 0 {
                            assert(w[k] == ww[k - 1]);
                            assert(wf[k] == wr[k - 1]);
                        } else {
                            assert(wf[0] == fields[0]);
                        }
                    }
                }
            }
        },
    }
}

/// Each arm of an enum's `read` for a variant with fields that is not ignored
/// builds the variant from the value its k-th field's type reads (see
/// [`read_expr`]), under the variant's explicit tag or else the index; an
/// ignored variant gets no arm.
pub proof fn lemma_variant_read_arms(
    fields: Seq<FieldType>,
    index: u64,
    variant: String,
    attr: FieldAttributes,
    enum_name: Seq<char>,
)
    requires
        variant_read_plans(fields, resolve_tag(attr, index), variant, attr) is Ok,
    ensures
        ({
            let arms = variant_read_plans(fields, resolve_tag(attr, index), variant, attr)->Ok_0;
            &&& arms.len() == (if attr.ignore {
                0
            } else {
                fields.len()
            })
            &&& forall|k: int|
                0 <= k < arms.len() ==> Some(enum_read_arm_text(enum_name, #[trigger] arms[k])) == match read_expr(
                    fields[k],
                    attr,
                    false,
                    enum_name,
                    variant@,
                ) {
                    Some(e) => Some(tag_text(tag_of(attr, index)) + " => { "@ + e + " }"@),
                    None => None,
                }
        }),
    decreases fields.len(),
{
    if fields.len() == 0 {
        return;
    }
    let tag = resolve_tag(attr, index);
    let rest = fields.drop_first();
    lemma_variant_read_arms(rest, index, variant, attr, enum_name);
    if !attr.ignore {
        let arms = variant_read_plans(fields, tag, variant, attr)->Ok_0;
        let ra = variant_read_plans(rest, tag, variant, attr)->Ok_0;
        assert(arms == seq![arms[0]] + ra);
        assert forall|k: int| 0 <= k < arms.len() implies Some(
            enum_read_arm_text(enum_name, #[trigger] arms[k]),
        ) == match read_expr(fields[k], attr, false, enum_name, variant@) {
            Some(e) => Some(tag_text(tag_of(attr, index)) + " => { "@ + e + " }"@),
            None => None,
        } by {
            if k > 0 {
                assert(arms[k] == ra[k - 1]);
                assert(fields[k] == rest[k - 1]);
            }
        }
    }
}

/// Each arm of an enum's `write` for a variant with fields that is not
/// ignored binds the k-th field as `field` and its position (counted from
/// `position`) and writes it with the statement a binding of its type gets
/// (see [`write_stmt`]); an ignored variant gets no arm.
pub proof fn lemma_variant_write_arms(
    fields: Seq<FieldType>,
    position: nat,
    index: u64,
    variant: String,
    attr: FieldAttributes,
    enum_name: Seq<char>,
)
    requires
        variant_write_plans(fields, position, resolve_tag(attr, index), variant, attr) is Ok,
    ensures
        ({
            let arms = variant_write_plans(fields, position, resolve_tag(attr, index), variant, attr)->Ok_0;
            &&& arms.len() == (if attr.ignore {
                0
            } else {
                fields.len()
            })
            &&& forall|k: int|
                0 <= k < arms.len() ==> {
                    let b = "field"@ + decimal((position + k) as nat);
                    Some(enum_write_arm_text(enum_name, #[trigger] arms[k])) == match write_stmt(
                        fields[k],
                        attr,
                        index,
                        b,
                        true,
                    ) {
                        Some(st) => Some(
                            enum_name + "::"@ + variant@ + "("@ + b + ") => { "@ + st + " },"@,
                        ),
                        None => None,
                    }
                }
        }),
    decreases fields.len(),
{
    if fields.len() == 0 {
        return;
    }
    let tag = resolve_tag(attr, index);
    let rest = fields.drop_first();
    lemma_variant_write_arms(rest, position + 1, index, variant, attr, enum_name);
    if !attr.ignore {
        let arms = variant_write_plans(fields, position, tag, variant, attr)->Ok_0;
        let ra = variant_write_plans(rest, position + 1, tag, variant, attr)->Ok_0;
        assert(arms == seq![arms[0]] + ra);
        assert forall|k: int| 0 <= k < arms.len() implies {
            let b = "field"@ + decimal((position + k) as nat);
            Some(enum_write_arm_text(enum_name, #[trigger] arms[k])) == match write_stmt(
                fields[k],
                attr,
                index,
                b,
                true,
            ) {
                Some(st) => Some(enum_name + "::"@ + variant@ + "("@ + b + ") => { "@ + st + " },"@),
                None => None,
            }
        } by {
            if k > 0 {
                assert(arms[k] == ra[k - 1]);
                assert(fields[k] == rest[k - 1]);
                assert((position + 1 + (k - 1)) as nat == (position + k) as nat);
            }
        }
    }
}

/// The place a write takes by reference: a binding, or a field of `self`.
pub open spec fn place(name: Seq<char>, is_binding: bool) -> Seq<char> {
    if is_binding {
        name
    } else {
        "self."@ + name
    }
}

/// A plain `String` field is read with `pb.read_string()` (in `Some` inside
/// an `Option`) and written by reference with `pbf.write_string_field`.
pub proof fn lemma_string_field(
    p: TypePath,
    attr: FieldAttributes,
    is_option: bool,
    index: u64,
    name: Seq<char>,
    is_binding: bool,
)
    requires
        plain(p),
        p.last.ident@ == "String"@,
    ensures
        read_arm(FieldType::Path(p), attr, is_option, index, name) == Some(
            tag_text(tag_of(attr, index)) + " => self."@ + name + " = "@ + wrapped(
                "pb.read_string()"@,
                is_option,
            ) + ","@,
        ),
        read_expr(FieldType::Path(p), attr, is_option, name, name) == Some(
            name + "::"@ + name + "("@ + wrapped("pb.read_string()"@, is_option) + ")"@,
        ),
        write_stmt(FieldType::Path(p), attr, index, name, is_binding) == Some(
            "pbf.write_string_field"@ + "("@ + tag_text(tag_of(attr, index)) + ", "@ + "&"@ + place(
                name,
                is_binding,
            ) + ");"@,
        ),
{
    reveal_strlit("String");
    reveal_strlit("u8");
    reveal_strlit("i8");
    reveal_strlit("u16");
    reveal_strlit("i16");
    reveal_strlit("u32");
    reveal_strlit("i32");
    reveal_strlit("f32");
    reveal_strlit("u64");
    reveal_strlit("i64");
    reveal_strlit("f64");
    reveal_strlit("usize");
    reveal_strlit("isize");
    reveal_strlit("bool");
    assert("String"@ != "u8"@) by {
        assert("String"@.len() != "u8"@.len());
    }
    assert("String"@ != "i8"@) by {
        assert("String"@.len() != "i8"@.len());
    }
    assert("String"@ != "u16"@) by {
        assert("String"@.len() != "u16"@.len());
    }
    assert("String"@ != "i16"@) by {
        assert("String"@.len() != "i16"@.len());
    }
    assert("String"@ != "u32"@) by {
        assert("String"@.len() != "u32"@.len());
    }
    assert("String"@ != "i32"@) by {
        assert("String"@.len() != "i32"@.len());
    }
    assert("String"@ != "f32"@) by {
        assert("String"@.len() != "f32"@.len());
    }
    assert("String"@ != "u64"@) by {
        assert("String"@.len() != "u64"@.len());
    }
    assert("String"@ != "i64"@) by {
        assert("String"@.len() != "i64"@.len());
    }
    assert("String"@ != "f64"@) by {
        assert("String"@.len() != "f64"@.len());
    }
    assert("String"@ != "usize"@) by {
        assert("String"@.len() != "usize"@.len());
    }
    assert("String"@ != "isize"@) by {
        assert("String"@.len() != "isize"@.len());
    }
    assert("String"@ != "bool"@) by {
        assert("String"@.len() != "bool"@.len());
    }
    assert(!scalar_name("String"@));
    assert(!crate::model::is_primitive(p));
}

/// The path `Vec<inner>`, whatever comes before `Vec`.
pub open spec fn vec_of(p: TypePath, inner: FieldType) -> bool {
    &&& p.last.ident@ == "Vec"@
    &&& p.last.arguments == PathArguments::AngleBracketed(
        Some(Box::new(GenericArgument::Type(inner))),
    )
}

/// A `Vec` is read as bytes when its item type is the plain `u8`, else as a
/// packed field (zig-zag when `signed`). It is written by reference as bytes
/// when its item type is a path ending in `u8`, as a packed field for any
/// other path type, and not at all for an item type that is not a path.
pub proof fn lemma_vec_field(
    p: TypePath,
    inner: FieldType,
    attr: FieldAttributes,
    is_option: bool,
    index: u64,
    name: Seq<char>,
    is_binding: bool,
)
    requires
        vec_of(p, inner),
    ensures
        read_arm(FieldType::Path(p), attr, is_option, index, name) == Some(
            tag_text(tag_of(attr, index)) + " => self."@ + name + " = "@ + wrapped(
                if inner matches FieldType::Path(q) && plain(q) && q.last.ident@ == "u8"@ {
                    "pb.read_bytes()"@
                } else if attr.signed {
                    "pb.read_s_packed()"@
                } else {
                    "pb.read_packed()"@
                },
                is_option,
            ) + ","@,
        ),
        write_stmt(FieldType::Path(p), attr, index, name, is_binding) == match inner {
            FieldType::Path(q) => Some(
                (if q.last.ident@ == "u8"@ {
                    "pbf.write_bytes_field"@
                } else if attr.signed {
                    "pbf.write_packed_s_varint"@
                } else {
                    "pbf.write_packed_varint"@
                }) + "("@ + tag_text(tag_of(attr, index)) + ", "@ + "&"@ + by_value(name, is_binding)
                    + ");"@,
            ),
            FieldType::Other(_) => None,
        },
{
}

/// A path type that is none of the known shapes: not a plain scalar or
/// `String`, and not ending in `Vec` or `Option`.
pub open spec fn other_path(p: TypePath) -> bool {
    &&& !(plain(p) && (scalar_name(p.last.ident@) || p.last.ident@ == "String"@))
    &&& p.last.ident@ != "Vec"@
    &&& p.last.ident@ != "Option"@
}

/// Any other path type marked `nested` is a message: read into a default
/// value of the type with `pb.read_message`, written by reference with
/// `pbf.write_message`.
pub proof fn lemma_nested_field(
    p: TypePath,
    attr: FieldAttributes,
    is_option: bool,
    index: u64,
    name: Seq<char>,
    is_binding: bool,
)
    requires
        other_path(p),
        attr.nested,
    ensures
        read_arm(FieldType::Path(p), attr, is_option, index, name) == Some(
            tag_text(tag_of(attr, index)) + " => { let mut nested_value = "@ + p.text@
                + "::default(); pb.read_message(&mut nested_value); self."@ + name + " = "@
                + wrapped("nested_value"@, is_option) + "; }"@,
        ),
        read_expr(FieldType::Path(p), attr, is_option, name, name) == Some(
            "{ let mut nested_value = "@ + p.text@
                + "::default(); pb.read_message(&mut nested_value); "@ + name + "::"@ + name + "("@
                + wrapped("nested_value"@, is_option) + ") }"@,
        ),
        write_stmt(FieldType::Path(p), attr, index, name, is_binding) == Some(
            "pbf.write_message"@ + "("@ + tag_text(tag_of(attr, index)) + ", "@ + "&"@ + by_value(
                name,
                is_binding,
            ) + ");"@,
        ),
{
}

/// Any other path type not marked `nested` (an enum stored as an integer) is
/// a plain varint, whatever `signed` and `fixed` say.
pub proof fn lemma_enum_valued_field(
    p: TypePath,
    attr: FieldAttributes,
    is_option: bool,
    index: u64,
    name: Seq<char>,
    is_binding: bool,
)
    requires
        other_path(p),
        !attr.nested,
    ensures
        read_arm(FieldType::Path(p), attr, is_option, index, name) == Some(
            tag_text(tag_of(attr, index)) + " => self."@ + name + " = "@ + wrapped(
                "pb.read_varint()"@,
                is_option,
            ) + ","@,
        ),
        write_stmt(FieldType::Path(p), attr, index, name, is_binding) == Some(
            "pbf.write_varint_field"@ + "("@ + tag_text(tag_of(attr, index)) + ", "@ + by_value(
                name,
                is_binding,
            ) + ");"@,
        ),
{
}

/// A type that is not a path (a reference, tuple, array, ...) is neither read
/// nor written, and neither is a `Vec` or an `Option` whose first argument is
/// not a type or that has no angle-bracketed arguments.
pub proof fn lemma_unsupported_types(
    ty: FieldType,
    attr: FieldAttributes,
    is_option: bool,
    index: u64,
    name: Seq<char>,
    is_binding: bool,
)
    requires
        ty matches FieldType::Other(_) || (ty matches FieldType::Path(p) && (p.last.ident@ == "Vec"@
            || p.last.ident@ == "Option"@) && !(p.last.arguments matches PathArguments::AngleBracketed(
            Some(arg),
        ) && *arg is Type)),
    ensures
        read_arm(ty, attr, is_option, index, name) is None,
        read_expr(ty, attr, is_option, name, name) is None,
        write_stmt(ty, attr, index, name, is_binding) is None,
{
    if let FieldType::Path(p) = ty {
        reveal_strlit("Option");
        reveal_strlit("Vec");
        reveal_strlit("String");
    reveal_strlit("u8");
    reveal_strlit("i8");
    reveal_strlit("u16");
    reveal_strlit("i16");
    reveal_strlit("u32");
    reveal_strlit("i32");
    reveal_strlit("f32");
    reveal_strlit("u64");
    reveal_strlit("i64");
    reveal_strlit("f64");
    reveal_strlit("usize");
    reveal_strlit("isize");
    reveal_strlit("bool");
        assert("Option"@ != "Vec"@) by {
            assert("Option"@.len() != "Vec"@.len());
        }
        assert("Vec"@ != "u8"@) by {
            assert("Vec"@.len() != "u8"@.len());
        }
        assert("Vec"@ != "i8"@) by {
            assert("Vec"@.len() != "i8"@.len());
        }
        assert("Vec"@ != "u16"@) by {
            assert("Vec"@[0] != "u16"@[0]);
        }
        assert("Vec"@ != "i16"@) by {
            assert("Vec"@[0] != "i16"@[0]);
        }
        assert("Vec"@ != "u32"@) by {
            assert("Vec"@[0] != "u32"@[0]);
        }
        assert("Vec"@ != "i32"@) by {
            assert("Vec"@[0] != "i32"@[0]);
        }
        assert("Vec"@ != "f32"@) by {
            assert("Vec"@[0] != "f32"@[0]);
        }
        assert("Vec"@ != "u64"@) by {
            assert("Vec"@[0] != "u64"@[0]);
        }
        assert("Vec"@ != "i64"@) by {
            assert("Vec"@[0] != "i64"@[0]);
        }
        assert("Vec"@ != "f64"@) by {
            assert("Vec"@[0] != "f64"@[0]);
        }
        assert("Vec"@ != "usize"@) by {
            assert("Vec"@.len() != "usize"@.len());
        }
        assert("Vec"@ != "isize"@) by {
            assert("Vec"@.len() != "isize"@.len());
        }
        assert("Vec"@ != "bool"@) by {
            assert("Vec"@.len() != "bool"@.len());
        }
        assert("Option"@ != "u8"@) by {
            assert("Option"@.len() != "u8"@.len());
        }
        assert("Option"@ != "i8"@) by {
            assert("Option"@.len() != "i8"@.len());
        }
        assert("Option"@ != "u16"@) by {
            assert("Option"@.len() != "u16"@.len());
        }
        assert("Option"@ != "i16"@) by {
            assert("Option"@.len() != "i16"@.len());
        }
        assert("Option"@ != "u32"@) by {
            assert("Option"@.len() != "u32"@.len());
        }
        assert("Option"@ != "i32"@) by {
            assert("Option"@.len() != "i32"@.len());
        }
        assert("Option"@ != "f32"@) by {
            assert("Option"@.len() != "f32"@.len());
        }
        assert("Option"@ != "u64"@) by {
            assert("Option"@.len() != "u64"@.len());
        }
        assert("Option"@ != "i64"@) by {
            assert("Option"@.len() != "i64"@.len());
        }
        assert("Option"@ != "f64"@) by {
            assert("Option"@.len() != "f64"@.len());
        }
        assert("Option"@ != "usize"@) by {
            assert("Option"@.len() != "usize"@.len());
        }
        assert("Option"@ != "isize"@) by {
            assert("Option"@.len() != "isize"@.len());
        }
        assert("Option"@ != "bool"@) by {
            assert("Option"@.len() != "bool"@.len());
        }
        assert("String"@ != "Vec"@) by {
            assert("String"@.len() != "Vec"@.len());
        }
        assert("String"@ != "Option"@) by {
            assert("String"@[0] != "Option"@[0]);
        }
        assert(!scalar_name("Vec"@));
        assert(!scalar_name("Option"@));
        assert(!crate::model::is_primitive(p));
        assert(!crate::model::is_ident(p, "String"@));
    }
}

/// A unit variant is read by naming it under its tag, and written as an
/// empty field under its tag.
pub proof fn lemma_unit_variant_arms(enum_name: Seq<char>, tag: u64, variant: String)
    ensures
        enum_read_arm_text(enum_name, ReadEnumArm::Unit { tag, variant }) == tag_text(tag) + " => "@
            + enum_name + "::"@ + variant@ + ","@,
        enum_write_arm_text(enum_name, WriteEnumArm::Unit { tag, variant }) == enum_name + "::"@
            + variant@ + " => pbf.write_field("@ + tag_text(tag) + ", Type::None),"@,
{
}

} // verus!
