//! The `ProtoRead` derive: which read each field gets, under which tag, and the
//! text of the generated `read` method.
use vstd::prelude::*;

use crate::accept::{
    attrs_parsed, enum_read_tags_fit, fields_have_read, lemma_enum_read_accepts,
    lemma_struct_read_accepts, tags_fit, variant_attrs_parsed, variants_have_read,
};
use crate::model::{
    is_ident, is_primitive, packed_encoding, resolve_tag, scalar_encoding, type_text, DataEnum,
    DataStruct, DeriveError, Encoding, Field, FieldAttributes, FieldType, Fields, GenericArgument,
    PathArguments, Variant,
};
use crate::model::{
    is_primitive_path, packed_encoding_of, path_is_ident, resolved_tag, scalar_encoding_of,
    type_text_of,
};
use crate::text::{ident_is, tag_literal, tag_text, wrap_item, wrapper_text};

verus! {

/// How one field is read.
#[derive(Debug)]
pub struct ReadPlan {
    /// The wire encoding that is read.
    pub encoding: Encoding,
    /// Whether the value read is wrapped in `Some` (the field is an `Option`).
    pub optional: bool,
    /// The source text of the type read; a nested message is built from its
    /// `default()`.
    pub message_type: String,
}

/// One match arm of a struct's `read`: the tag, the field it fills, and how.
pub struct ReadArm {
    pub tag: u64,
    pub field: String,
    pub plan: ReadPlan,
}

/// One match arm of an enum's `read`.
pub enum ReadEnumArm {
    /// A unit variant, selected by its tag.
    Unit { tag: u64, variant: String },
    /// A variant built from one value read under the tag.
    Field { tag: u64, variant: String, plan: ReadPlan },
}

/// Whether the type is the single identifier `s`.
pub open spec fn is_ident_type(ty: FieldType, s: Seq<char>) -> bool {
    ty matches FieldType::Path(p) && is_ident(p, s)
}

/// How a value of type `ty` is read, or `None` where no read is known for it.
/// `is_option` says that the value sits inside an `Option`.
///
/// Scalars use the attribute's scalar encoding; `String` is a string;
/// `Vec<u8>` is bytes and any other `Vec<T>` a packed field; `Option<T>` reads
/// a `T` wrapped in `Some`; a path marked `nested` is a message; any other path
/// (an enum stored as an integer) is a plain varint.
pub open spec fn spec_read_plan(ty: FieldType, attr: FieldAttributes, is_option: bool) -> Option<
    ReadPlan,
>
    decreases ty,
{
    match ty {
        FieldType::Path(p) => {
            if is_primitive(p) {
                Some(
                    ReadPlan {
                        encoding: scalar_encoding(attr),
                        optional: is_option,
                        message_type: p.text,
                    },
                )
            } else if is_ident(p, "String"@) {
                Some(ReadPlan { encoding: Encoding::Str, optional: is_option, message_type: p.text })
            } else if p.last.ident@ == "Vec"@ {
                match p.last.arguments {
                    PathArguments::AngleBracketed(Some(arg)) => match *arg {
                        GenericArgument::Type(inner) => Some(
                            ReadPlan {
                                encoding: if is_ident_type(inner, "u8"@) {
                                    Encoding::Bytes
                                } else {
                                    packed_encoding(attr)
                                },
                                optional: is_option,
                                message_type: p.text,
                            },
                        ),
                        GenericArgument::Other => None,
                    },
                    _ => None,
                }
            } else if p.last.ident@ == "Option"@ {
                match p.last.arguments {
                    PathArguments::AngleBracketed(Some(arg)) => match *arg {
                        GenericArgument::Type(inner) => spec_read_plan(inner, attr, true),
                        GenericArgument::Other => None,
                    },
                    _ => None,
                }
            } else if attr.nested {
                Some(
                    ReadPlan { encoding: Encoding::Message, optional: is_option, message_type: p.text },
                )
            } else {
                Some(
                    ReadPlan { encoding: Encoding::Varint, optional: is_option, message_type: p.text },
                )
            }
        },
        FieldType::Other(_) => None,
    }
}

/// The call that reads a value of the encoding; a message is read into the
/// local `nested_value`.
pub open spec fn read_call_text(e: Encoding) -> Seq<char> {
    match e {
        Encoding::Varint => "pb.read_varint()"@,
        Encoding::SVarint => "pb.read_s_varint()"@,
        Encoding::Fixed => "pb.read_fixed()"@,
        Encoding::Str => "pb.read_string()"@,
        Encoding::Bytes => "pb.read_bytes()"@,
        Encoding::Packed => "pb.read_packed()"@,
        Encoding::SPacked => "pb.read_s_packed()"@,
        Encoding::Message => "nested_value"@,
    }
}

/// The value stored: the read, wrapped in `Some` for an optional field.
pub open spec fn read_value_text(plan: ReadPlan) -> Seq<char> {
    if plan.optional {
        "Some("@ + read_call_text(plan.encoding) + ")"@
    } else {
        read_call_text(plan.encoding)
    }
}

/// A match arm of a struct's `read` that fills field `name` under `tag`.
pub open spec fn struct_read_arm_text(tag: u64, name: Seq<char>, plan: ReadPlan) -> Seq<char> {
    if plan.encoding is Message {
        tag_text(tag) + " => { let mut nested_value = "@ + plan.message_type@
            + "::default(); pb.read_message(&mut nested_value); self."@ + name + " = "@
            + read_value_text(plan) + "; }"@
    } else {
        tag_text(tag) + " => self."@ + name + " = "@ + read_value_text(plan) + ","@
    }
}

/// The expression that builds variant `variant` of enum `name` from one read.
pub open spec fn enum_read_expr_text(name: Seq<char>, variant: Seq<char>, plan: ReadPlan) -> Seq<
    char,
> {
    if plan.encoding is Message {
        "{ let mut nested_value = "@ + plan.message_type@
            + "::default(); pb.read_message(&mut nested_value); "@ + name + "::"@ + variant + "("@
            + read_value_text(plan) + ") }"@
    } else {
        name + "::"@ + variant + "("@ + read_value_text(plan) + ")"@
    }
}

/// `r` with `acc` put in front of its arms.
pub open spec fn after<T>(acc: Seq<T>, r: Result<Seq<T>, DeriveError>) -> Result<
    Seq<T>,
    DeriveError,
> {
    match r {
        Ok(s) => Ok(acc + s),
        Err(e) => Err(e),
    }
}

/// The read arms of a struct's fields, numbered from `index`.
///
/// Fields marked `ignore` get no arm and take no tag. Every other field gets
/// its explicit tag or else the running index, and the running index becomes
/// that tag plus one. The first field whose attributes did not parse, whose
/// type has no read, or whose tag is `u64::MAX` (the next index would not fit)
/// makes the whole derive fail.
pub open spec fn struct_read_plans(fields: Seq<Field>, index: u64) -> Result<
    Seq<ReadArm>,
    DeriveError,
>
    decreases fields.len(),
{
    if fields.len() == 0 {
        Ok(Seq::empty())
    } else {
        let field = fields[0];
        match field.attrs {
            Err(msg) => Err(DeriveError::Attributes(msg)),
            Ok(attr) => {
                if attr.ignore {
                    struct_read_plans(fields.drop_first(), index)
                } else {
                    let tag = resolve_tag(attr, index);
                    match spec_read_plan(field.ty, attr, false) {
                        None => Err(DeriveError::UnsupportedType(type_text(field.ty))),
                        Some(plan) => {
                            if tag == u64::MAX {
                                Err(DeriveError::TagOverflow)
                            } else {
                                after(
                                    seq![ReadArm { tag, field: field.ident, plan }],
                                    struct_read_plans(fields.drop_first(), (tag + 1) as u64),
                                )
                            }
                        },
                    }
                }
            },
        }
    }
}

/// The read arms of one enum variant's fields, all under `tag`.
pub open spec fn variant_read_plans(
    fields: Seq<FieldType>,
    tag: u64,
    variant: String,
    attr: FieldAttributes,
) -> Result<Seq<ReadEnumArm>, DeriveError>
    decreases fields.len(),
{
    if fields.len() == 0 {
        Ok(Seq::empty())
    } else if attr.ignore {
        variant_read_plans(fields.drop_first(), tag, variant, attr)
    } else {
        match spec_read_plan(fields[0], attr, false) {
            None => Err(DeriveError::UnsupportedType(type_text(fields[0]))),
            Some(plan) => after(
                seq![ReadEnumArm::Field { tag, variant, plan }],
                variant_read_plans(fields.drop_first(), tag, variant, attr),
            ),
        }
    }
}

/// The read arms of an enum's variants, numbered from `index`.
///
/// A variant's explicit tag becomes the running index. A unit variant gets an
/// arm under the running index and leaves it as it is; a variant with fields
/// gets one arm per field that is not ignored, all under the running index,
/// and moves the index one past it.
pub open spec fn enum_read_plans(variants: Seq<Variant>, index: u64) -> Result<
    Seq<ReadEnumArm>,
    DeriveError,
>
    decreases variants.len(),
{
    if variants.len() == 0 {
        Ok(Seq::empty())
    } else {
        let v = variants[0];
        match v.attrs {
            Err(msg) => Err(DeriveError::Attributes(msg)),
            Ok(attr) => {
                let tag = resolve_tag(attr, index);
                if v.fields.len() == 0 {
                    after(
                        seq![ReadEnumArm::Unit { tag, variant: v.ident }],
                        enum_read_plans(variants.drop_first(), tag),
                    )
                } else {
                    match variant_read_plans(v.fields@, tag, v.ident, attr) {
                        Err(e) => Err(e),
                        Ok(arms) => {
                            if tag == u64::MAX {
                                Err(DeriveError::TagOverflow)
                            } else {
                                after(arms, enum_read_plans(variants.drop_first(), (tag + 1) as u64))
                            }
                        },
                    }
                }
            },
        }
    }
}

/// The arms of a struct's `match`, each followed by a space.
pub open spec fn read_arms_text(arms: Seq<ReadArm>) -> Seq<char>
    decreases arms.len(),
{
    if arms.len() == 0 {
        Seq::empty()
    } else {
        let a = arms.last();
        read_arms_text(arms.drop_last()) + struct_read_arm_text(a.tag, a.field@, a.plan) + " "@
    }
}

/// One arm of an enum's `match`.
pub open spec fn enum_read_arm_text(name: Seq<char>, arm: ReadEnumArm) -> Seq<char> {
    match arm {
        ReadEnumArm::Unit { tag, variant } => tag_text(tag) + " => "@ + name + "::"@ + variant@
            + ","@,
        ReadEnumArm::Field { tag, variant, plan } => tag_text(tag) + " => { "@
            + enum_read_expr_text(name, variant@, plan) + " }"@,
    }
}

/// The arms of an enum's `match`, each followed by a space.
pub open spec fn enum_read_arms_text(name: Seq<char>, arms: Seq<ReadEnumArm>) -> Seq<char>
    decreases arms.len(),
{
    if arms.len() == 0 {
        Seq::empty()
    } else {
        enum_read_arms_text(name, arms.drop_last()) + enum_read_arm_text(name, arms.last()) + " "@
    }
}

/// The `ProtoRead` impl of struct `name` with the given arms.
pub open spec fn read_struct_text(name: Seq<char>, arms: Seq<ReadArm>) -> Seq<char> {
    "impl ProtoRead for "@ + name
        + " { fn read(&mut self, tag: u64, pb: &mut Protobuf) { match tag { "@ + read_arms_text(
        arms,
    ) + "_ => panic!(\"unknown tag {}\", tag), } } }"@
}

/// The `ProtoRead` impl of enum `name` with the given arms.
pub open spec fn read_enum_text(name: Seq<char>, arms: Seq<ReadEnumArm>) -> Seq<char> {
    "impl ProtoRead for "@ + name
        + " { fn read(&mut self, tag: u64, pb: &mut Protobuf) { *self = match tag { "@
        + enum_read_arms_text(name, arms) + "_ => panic!(\"unknown tag {}\", tag), } } }"@
}

/// What deriving `ProtoRead` for struct `name` gives.
pub open spec fn read_struct_result(data: DataStruct, name: Seq<char>) -> Result<
    Seq<char>,
    DeriveError,
> {
    match data.fields {
        Fields::Named(fields) => match struct_read_plans(fields@, 0) {
            Ok(arms) => Ok(read_struct_text(name, arms)),
            Err(e) => Err(e),
        },
        _ => Err(DeriveError::NotNamedFields),
    }
}

/// What deriving `ProtoRead` for enum `name` gives.
pub open spec fn read_enum_result(data: DataEnum, name: Seq<char>) -> Result<
    Seq<char>,
    DeriveError,
> {
    match enum_read_plans(data.variants@, 0) {
        Ok(arms) => Ok(read_enum_text(name, arms)),
        Err(e) => Err(e),
    }
}

/// Whether the type is the single identifier `s`.
fn type_is_ident(ty: &FieldType, s: &str) -> (res: bool)
    ensures
        res == is_ident_type(*ty, s@),
{
    match ty {
        FieldType::Path(p) => path_is_ident(p, s),
        FieldType::Other(_) => false,
    }
}

/// How a value of type `ty` is read (see [`spec_read_plan`]).
pub fn read_plan(ty: &FieldType, attr: &FieldAttributes, is_option: bool) -> (res: Option<ReadPlan>)
    ensures
        res == spec_read_plan(*ty, *attr, is_option),
    decreases ty,
{
    match ty {
        FieldType::Path(p) => {
            if is_primitive_path(p) {
                Some(
                    ReadPlan {
                        encoding: scalar_encoding_of(attr),
                        optional: is_option,
                        message_type: p.text.clone(),
                    },
                )
            } else if path_is_ident(p, "String") {
                Some(
                    ReadPlan {
                        encoding: Encoding::Str,
                        optional: is_option,
                        message_type: p.text.clone(),
                    },
                )
            } else if ident_is(&p.last.ident, "Vec") {
                match &p.last.arguments {
                    PathArguments::AngleBracketed(Some(arg)) => match &**arg {
                        GenericArgument::Type(inner) => {
                            let encoding = if type_is_ident(inner, "u8") {
                                Encoding::Bytes
                            } else {
                                packed_encoding_of(attr)
                            };
                            Some(
                                ReadPlan {
                                    encoding,
                                    optional: is_option,
                                    message_type: p.text.clone(),
                                },
                            )
                        },
                        GenericArgument::Other => None,
                    },
                    _ => None,
                }
            } else if ident_is(&p.last.ident, "Option") {
                match &p.last.arguments {
                    PathArguments::AngleBracketed(Some(arg)) => match &**arg {
                        GenericArgument::Type(inner) => read_plan(inner, attr, true),
                        GenericArgument::Other => None,
                    },
                    _ => None,
                }
            } else if attr.nested {
                Some(
                    ReadPlan {
                        encoding: Encoding::Message,
                        optional: is_option,
                        message_type: p.text.clone(),
                    },
                )
            } else {
                Some(
                    ReadPlan {
                        encoding: Encoding::Varint,
                        optional: is_option,
                        message_type: p.text.clone(),
                    },
                )
            }
        },
        FieldType::Other(_) => None,
    }
}

/// The value a read stores (see [`read_value_text`]).
fn read_value(plan: &ReadPlan) -> (res: String)
    ensures
        res@ == read_value_text(*plan),
{
    let call = match plan.encoding {
        Encoding::Varint => "pb.read_varint()",
        Encoding::SVarint => "pb.read_s_varint()",
        Encoding::Fixed => "pb.read_fixed()",
        Encoding::Str => "pb.read_string()",
        Encoding::Bytes => "pb.read_bytes()",
        Encoding::Packed => "pb.read_packed()",
        Encoding::SPacked => "pb.read_s_packed()",
        Encoding::Message => "nested_value",
    };
    if plan.optional {
        let mut s = String::from_str("Some(");
        s.append(call);
        s.append(")");
        s
    } else {
        String::from_str(call)
    }
}

/// A match arm of a struct's `read` (see [`struct_read_arm_text`]).
fn struct_read_arm(tag: u64, name: &String, plan: &ReadPlan) -> (res: String)
    ensures
        res@ == struct_read_arm_text(tag, name@, *plan),
{
    let value = read_value(plan);
    let mut s = tag_literal(tag);
    match plan.encoding {
        Encoding::Message => {
            s.append(" => { let mut nested_value = ");
            s.append(plan.message_type.as_str());
            s.append("::default(); pb.read_message(&mut nested_value); self.");
            s.append(name.as_str());
            s.append(" = ");
            s.append(value.as_str());
            s.append("; }");
        },
        _ => {
            s.append(" => self.");
            s.append(name.as_str());
            s.append(" = ");
            s.append(value.as_str());
            s.append(",");
        },
    }
    s
}

/// The match arm of a struct's `read` for field `field_name` of type
/// `field_type`: under the field's explicit tag, else under `field_index`.
/// `None` where no read is known for the type.
pub fn field_type_to_read_method(
    field_type: &FieldType,
    field_name: &String,
    field_index: u64,
    attr: &FieldAttributes,
    is_option: bool,
) -> (res: Option<String>)
    ensures
        match spec_read_plan(*field_type, *attr, is_option) {
            Some(plan) => res matches Some(s) && s@ == struct_read_arm_text(
                resolve_tag(*attr, field_index),
                field_name@,
                plan,
            ),
            None => res is None,
        },
{
    let field_index = resolved_tag(attr, field_index);
    match read_plan(field_type, attr, is_option) {
        Some(plan) => Some(struct_read_arm(field_index, field_name, &plan)),
        None => None,
    }
}

/// The expression that builds variant `variant_name` of enum `name` from a
/// value of type `field_type`; `None` where no read is known for the type.
pub fn field_type_to_read_enum(
    field_type: &FieldType,
    name: &String,
    variant_name: &String,
    attr: &FieldAttributes,
    is_option: bool,
) -> (res: Option<String>)
    ensures
        match spec_read_plan(*field_type, *attr, is_option) {
            Some(plan) => res matches Some(s) && s@ == enum_read_expr_text(
                name@,
                variant_name@,
                plan,
            ),
            None => res is None,
        },
{
    match read_plan(field_type, attr, is_option) {
        Some(plan) => {
            let value = read_value(&plan);
            let mut s = String::new();
            match plan.encoding {
                Encoding::Message => {
                    s.append("{ let mut nested_value = ");
                    s.append(plan.message_type.as_str());
                    s.append("::default(); pb.read_message(&mut nested_value); ");
                    s.append(name.as_str());
                    s.append("::");
                    s.append(variant_name.as_str());
                    s.append("(");
                    s.append(value.as_str());
                    s.append(") }");
                },
                _ => {
                    s.append(name.as_str());
                    s.append("::");
                    s.append(variant_name.as_str());
                    s.append("(");
                    s.append(value.as_str());
                    s.append(")");
                },
            }
            proof {
                assert(s@ =~= enum_read_expr_text(name@, variant_name@, plan));
            }
            Some(s)
        },
        None => None,
    }
}

/// Appends `s` and a space.
pub(crate) fn push_arm(arms: &mut String, s: &String)
    ensures
        final(arms)@ == old(arms)@ + s@ + " "@,
{
    arms.append(s.as_str());
    arms.append(" ");
}

/// The tag that follows a field or variant under `tag`, or the overflow error.
pub(crate) fn next_index(attr: &FieldAttributes, field_index: u64) -> (res: Result<u64, DeriveError>)
    ensures
        match res {
            Ok(n) => resolve_tag(*attr, field_index) < u64::MAX && n == resolve_tag(*attr, field_index)
                + 1,
            Err(e) => resolve_tag(*attr, field_index) == u64::MAX && e == DeriveError::TagOverflow,
        },
{
    match attr.tag {
        Some(index) => {
            if index == u64::MAX {
                return Err(DeriveError::TagOverflow);
            }
            Ok(index + 1)
        },
        None => {
            if field_index == u64::MAX {
                return Err(DeriveError::TagOverflow);
            }
            Ok(field_index + 1)
        },
    }
}

/// The generated `ProtoRead` impl of struct `name`: a `match` on the tag with
/// one arm per field that is not ignored (see [`struct_read_plans`]), and a
/// panic on any other tag.
fn render_read_struct(data_struct: &DataStruct, name: &String) -> (res: Result<
    String,
    DeriveError,
>)
    ensures
        match res {
            Ok(s) => read_struct_result(*data_struct, name@) == Ok::<Seq<char>, DeriveError>(s@),
            Err(e) => read_struct_result(*data_struct, name@) == Err::<Seq<char>, DeriveError>(e),
        },
{
    let fields = match &data_struct.fields {
        Fields::Named(fields) => fields,
        _ => return Err(DeriveError::NotNamedFields),
    };
    let mut arms = String::new();
    let mut field_index: u64 = 0;
    let ghost mut done: Seq<ReadArm> = Seq::empty();
    let mut i: usize = 0;
    proof {
        assert(fields@.skip(0) =~= fields@);
        match struct_read_plans(fields@, 0) {
            Ok(r) => assert(done + r =~= r),
            Err(_) => {},
        }
    }
    while i < fields.len()
        invariant
            i <= fields.len(),
            data_struct.fields == Fields::Named(*fields),
            struct_read_plans(fields@, 0) == after(
                done,
                struct_read_plans(fields@.skip(i as int), field_index),
            ),
            arms@ == read_arms_text(done),
        decreases fields.len() - i,
    {
        let field = &fields[i];
        let ghost rest = fields@.skip(i as int);
        proof {
            assert(rest[0] == fields@[i as int]);
            assert(rest.drop_first() =~= fields@.skip(i + 1));
        }
        let attr = match &field.attrs {
            Err(msg) => return Err(DeriveError::Attributes(msg.clone())),
            Ok(a) => *a,
        };
        if attr.ignore {
            i += 1;
            continue ;
        }
        let arm = match field_type_to_read_method(&field.ty, &field.ident, field_index, &attr, false) {
            Some(arm) => arm,
            None => return Err(DeriveError::UnsupportedType(type_text_of(&field.ty))),
        };
        let ghost tag = resolve_tag(attr, field_index);
        let next = match next_index(&attr, field_index) {
            Ok(n) => n,
            Err(e) => return Err(e),
        };
        push_arm(&mut arms, &arm);
        proof {
            let a = ReadArm { tag, field: field.ident, plan: spec_read_plan(field.ty, attr, false).unwrap() };
            let nd = done.push(a);
            assert(nd.drop_last() =~= done);
            match struct_read_plans(fields@.skip(i + 1), next) {
                Ok(r) => {
                    assert(done + (seq![a] + r) =~= nd + r);
                },
                Err(_) => {},
            }
            done = nd;
        }
        field_index = next;
        i += 1;
    }
    proof {
        assert(fields@.skip(i as int) =~= Seq::<Field>::empty());
        assert(done + Seq::<ReadArm>::empty() =~= done);
    }
    let mut s = String::from_str("impl ProtoRead for ");
    s.append(name.as_str());
    s.append(" { fn read(&mut self, tag: u64, pb: &mut Protobuf) { match tag { ");
    s.append(arms.as_str());
    s.append("_ => panic!(\"unknown tag {}\", tag), } } }");
    Ok(s)
}

/// Appends the arms of one variant with fields to `arms`, all under `tag`.
fn read_variant_arms(
    fields: &Vec<FieldType>,
    name: &String,
    variant: &String,
    attr: &FieldAttributes,
    tag: u64,
    arms: &mut String,
    Ghost(done): Ghost<Seq<ReadEnumArm>>,
) -> (res: Result<(), DeriveError>)
    requires
        old(arms)@ == enum_read_arms_text(name@, done),
    ensures
        match variant_read_plans(fields@, tag, *variant, *attr) {
            Ok(vs) => res is Ok && final(arms)@ == enum_read_arms_text(name@, done + vs),
            Err(e) => res == Err::<(), DeriveError>(e),
        },
{
    let ghost mut vdone: Seq<ReadEnumArm> = Seq::empty();
    let mut j: usize = 0;
    proof {
        assert(fields@.skip(0) =~= fields@);
        assert(done + vdone =~= done);
        match variant_read_plans(fields@, tag, *variant, *attr) {
            Ok(r) => assert(vdone + r =~= r),
            Err(_) => {},
        }
    }
    while j < fields.len()
        invariant
            j <= fields.len(),
            variant_read_plans(fields@, tag, *variant, *attr) == after(
                vdone,
                variant_read_plans(fields@.skip(j as int), tag, *variant, *attr),
            ),
            arms@ == enum_read_arms_text(name@, done + vdone),
        decreases fields.len() - j,
    {
        let ghost rest = fields@.skip(j as int);
        proof {
            assert(rest[0] == fields@[j as int]);
            assert(rest.drop_first() =~= fields@.skip(j + 1));
        }
        if attr.ignore {
            j += 1;
            continue ;
        }
        let expr = match field_type_to_read_enum(&fields[j], name, variant, attr, false) {
            Some(expr) => expr,
            None => return Err(DeriveError::UnsupportedType(type_text_of(&fields[j]))),
        };
        let mut arm = tag_literal(tag);
        arm.append(" => { ");
        arm.append(expr.as_str());
        arm.append(" }");
        push_arm(arms, &arm);
        proof {
            let a = ReadEnumArm::Field {
                tag,
                variant: *variant,
                plan: spec_read_plan(fields@[j as int], *attr, false).unwrap(),
            };
            let nv = vdone.push(a);
            assert((done + nv).drop_last() =~= done + vdone);
            assert((done + nv).last() == a);
            match variant_read_plans(fields@.skip(j + 1), tag, *variant, *attr) {
                Ok(r) => {
                    assert(vdone + (seq![a] + r) =~= nv + r);
                },
                Err(_) => {},
            }
            vdone = nv;
        }
        j += 1;
    }
    proof {
        assert(fields@.skip(j as int) =~= Seq::<FieldType>::empty());
        assert(vdone + Seq::<ReadEnumArm>::empty() =~= vdone);
    }
    Ok(())
}

/// The generated `ProtoRead` impl of enum `name`: `*self` becomes the variant
/// that a `match` on the tag selects (see [`enum_read_plans`]), with a panic on
/// any other tag.
fn render_read_enum(data_enum: &DataEnum, name: &String) -> (res: Result<
    String,
    DeriveError,
>)
    ensures
        match res {
            Ok(s) => read_enum_result(*data_enum, name@) == Ok::<Seq<char>, DeriveError>(s@),
            Err(e) => read_enum_result(*data_enum, name@) == Err::<Seq<char>, DeriveError>(e),
        },
{
    let variants = &data_enum.variants;
    let mut arms = String::new();
    let mut field_index: u64 = 0;
    let ghost mut done: Seq<ReadEnumArm> = Seq::empty();
    let mut i: usize = 0;
    proof {
        assert(variants@.skip(0) =~= variants@);
        match enum_read_plans(variants@, 0) {
            Ok(r) => assert(done + r =~= r),
            Err(_) => {},
        }
    }
    while i < variants.len()
        invariant
            i <= variants.len(),
            *variants == data_enum.variants,
            enum_read_plans(variants@, 0) == after(
                done,
                enum_read_plans(variants@.skip(i as int), field_index),
            ),
            arms@ == enum_read_arms_text(name@, done),
        decreases variants.len() - i,
    {
        let variant = &variants[i];
        let ghost rest = variants@.skip(i as int);
        proof {
            assert(rest[0] == variants@[i as int]);
            assert(rest.drop_first() =~= variants@.skip(i + 1));
        }
        let attr = match &variant.attrs {
            Err(msg) => return Err(DeriveError::Attributes(msg.clone())),
            Ok(a) => *a,
        };
        let tag = resolved_tag(&attr, field_index);
        if variant.fields.len() == 0 {
            let mut arm = tag_literal(tag);
            arm.append(" => ");
            arm.append(name.as_str());
            arm.append("::");
            arm.append(variant.ident.as_str());
            arm.append(",");
            push_arm(&mut arms, &arm);
            proof {
                let a = ReadEnumArm::Unit { tag, variant: variant.ident };
                let nd = done.push(a);
                assert(nd.drop_last() =~= done);
                match enum_read_plans(variants@.skip(i + 1), tag) {
                    Ok(r) => {
                        assert(done + (seq![a] + r) =~= nd + r);
                    },
                    Err(_) => {},
                }
                done = nd;
            }
            field_index = tag;
        } else {
            match read_variant_arms(
                &variant.fields,
                name,
                &variant.ident,
                &attr,
                tag,
                &mut arms,
                Ghost(done),
            ) {
                Ok(()) => {},
                Err(e) => return Err(e),
            }
            let next = match next_index(&attr, field_index) {
                Ok(n) => n,
                Err(e) => return Err(e),
            };
            proof {
                let vs = variant_read_plans(variant.fields@, tag, variant.ident, attr).unwrap();
                match enum_read_plans(variants@.skip(i + 1), next) {
                    Ok(r) => {
                        assert(done + (vs + r) =~= (done + vs) + r);
                    },
                    Err(_) => {},
                }
                done = done + vs;
            }
            field_index = next;
        }
        i += 1;
    }
    proof {
        assert(variants@.skip(i as int) =~= Seq::<Variant>::empty());
        assert(done + Seq::<ReadEnumArm>::empty() =~= done);
    }
    let mut s = String::from_str("impl ProtoRead for ");
    s.append(name.as_str());
    s.append(" { fn read(&mut self, tag: u64, pb: &mut Protobuf) { *self = match tag { ");
    s.append(arms.as_str());
    s.append("_ => panic!(\"unknown tag {}\", tag), } } }");
    Ok(s)
}

/// Why deriving `ProtoRead` refuses the struct: it does not have named
/// fields, or a field's attributes did not parse, or a field that is not
/// ignored has a type with no read, or a tag is `u64::MAX` so that the next
/// one would not fit (see [`struct_read_plans`]). `None` where the derive
/// accepts it.
pub open spec fn read_struct_refusal(data: DataStruct) -> Option<DeriveError> {
    match data.fields {
        Fields::Named(fields) => match struct_read_plans(fields@, 0) {
            Ok(_) => None,
            Err(e) => Some(e),
        },
        _ => Some(DeriveError::NotNamedFields),
    }
}

/// Why deriving `ProtoRead` refuses the enum: a variant's attributes did not
/// parse, or a field of a variant that is not ignored has a type with no read,
/// or a tag is `u64::MAX` so that the next one would not fit (see
/// [`enum_read_plans`]). `None` where the derive accepts it.
pub open spec fn read_enum_refusal(data: DataEnum) -> Option<DeriveError> {
    match enum_read_plans(data.variants@, 0) {
        Ok(_) => None,
        Err(e) => Some(e),
    }
}

/// Why deriving `ProtoRead` refuses the struct, the first reason in field order;
/// `None` where it accepts it. The derive itself is called only where this is
/// `None`.
pub fn proto_read_struct_refusal(data_struct: &DataStruct) -> (res: Option<DeriveError>)
    ensures
        res == read_struct_refusal(*data_struct),
        res is None <==> (data_struct.fields is Named && attrs_parsed(data_struct.fields->Named_0@) && fields_have_read(data_struct.fields->Named_0@) && tags_fit(data_struct.fields->Named_0@, 0)),
{
    proof {
        lemma_struct_read_accepts(data_struct.fields->Named_0@, 0);
    }
    match render_read_struct(data_struct, &String::new()) {
        Ok(_) => None,
        Err(e) => Some(e),
    }
}

/// Why deriving `ProtoRead` refuses the enum, the first reason in variant order;
/// `None` where it accepts it. The derive itself is called only where this is
/// `None`.
pub fn proto_read_enum_refusal(data_enum: &DataEnum) -> (res: Option<DeriveError>)
    ensures
        res == read_enum_refusal(*data_enum),
        res is None <==> (variant_attrs_parsed(data_enum.variants@) && variants_have_read(data_enum.variants@) && enum_read_tags_fit(data_enum.variants@, 0)),
{
    proof {
        lemma_enum_read_accepts(data_enum.variants@, 0);
    }
    match render_read_enum(data_enum, &String::new()) {
        Ok(_) => None,
        Err(e) => Some(e),
    }
}

/// The `ProtoRead` impl of struct `name` (see [`read_struct_text`]) inside the
/// wrapper that brings in the core crate `pbf_core` (see [`wrapper_text`]).
pub fn derive_proto_read_struct(data_struct: &DataStruct, name: &String, pbf_core: &String) -> (res:
    String)
    requires
        data_struct.fields is Named,
        attrs_parsed(data_struct.fields->Named_0@),
        fields_have_read(data_struct.fields->Named_0@),
        tags_fit(data_struct.fields->Named_0@, 0),
    ensures
        data_struct.fields matches Fields::Named(fields) && res@ == wrapper_text(
            pbf_core@,
            read_struct_text(name@, struct_read_plans(fields@, 0)->Ok_0),
        ),
{
    proof {
        lemma_struct_read_accepts(data_struct.fields->Named_0@, 0);
    }
    match render_read_struct(data_struct, name) {
        Ok(item) => wrap_item(pbf_core, &item),
        Err(_) => {
            proof {
                assert(false);
            }
            String::new()
        },
    }
}

/// The `ProtoRead` impl of enum `name` (see [`read_enum_text`]) inside the
/// wrapper that brings in the core crate `pbf_core` (see [`wrapper_text`]).
pub fn derive_proto_read_enum(data_enum: &DataEnum, name: &String, pbf_core: &String) -> (res:
    String)
    requires
        variant_attrs_parsed(data_enum.variants@),
        variants_have_read(data_enum.variants@),
        enum_read_tags_fit(data_enum.variants@, 0),
    ensures
        res@ == wrapper_text(
            pbf_core@,
            read_enum_text(name@, enum_read_plans(data_enum.variants@, 0)->Ok_0),
        ),
{
    proof {
        lemma_enum_read_accepts(data_enum.variants@, 0);
    }
    match render_read_enum(data_enum, name) {
        Ok(item) => wrap_item(pbf_core, &item),
        Err(_) => {
            proof {
                assert(false);
            }
            String::new()
        },
    }
}

} // verus!
