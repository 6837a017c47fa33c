//! The `ProtoWrite` derive: which write each field gets, under which tag, and
//! the text of the generated `write` method.
use vstd::prelude::*;

use crate::accept::{
    attrs_parsed, enum_write_tags_fit, fields_have_write, lemma_enum_write_accepts,
    lemma_struct_write_accepts, tags_fit, variant_attrs_parsed, variants_have_write,
};
use crate::model::{
    is_ident, is_primitive, packed_encoding, resolve_tag, scalar_encoding, type_text, DataEnum,
    DataStruct, DeriveError, Encoding, Field, FieldAttributes, FieldType, Fields, GenericArgument,
    PathArguments, Variant,
};
use crate::model::{
    is_primitive_path, packed_encoding_of, path_is_ident, resolved_tag, scalar_encoding_of,
    type_text_of,
};
use crate::read::{after, next_index, push_arm};
use crate::text::{append_decimal, decimal, ident_is, tag_literal, tag_text, wrap_item, wrapper_text};

verus! {

/// One statement of a struct's `write`: the field, its tag, its encoding, and
/// how many `Option`s it sits in.
pub struct WriteArm {
    pub tag: u64,
    pub field: String,
    pub encoding: Encoding,
    pub depth: nat,
}

/// One match arm of an enum's `write`.
pub enum WriteEnumArm {
    /// A unit variant: an empty field under the tag.
    Unit { tag: u64, variant: String },
    /// One field of a variant, bound by its position, written under the tag.
    Field { tag: u64, variant: String, position: nat, encoding: Encoding, depth: nat },
}

/// How a value of type `ty` is written: its encoding and the number of
/// `Option`s around it, or `None` where no write is known for it.
///
/// Scalars use the attribute's scalar encoding; `String` is a string; a `Vec`
/// of a path type ending in `u8` is bytes, a `Vec` of any other path type is a
/// packed field; `Option<T>` writes a present `T`; a path marked `nested` is a
/// message; any other path (an enum stored as an integer) is a plain varint.
pub open spec fn spec_write_plan(ty: FieldType, attr: FieldAttributes) -> Option<(Encoding, nat)>
    decreases ty,
{
    match ty {
        FieldType::Path(p) => {
            if is_primitive(p) {
                Some((scalar_encoding(attr), 0))
            } else if is_ident(p, "String"@) {
                Some((Encoding::Str, 0))
            } else if p.last.ident@ == "Vec"@ {
                match p.last.arguments {
                    PathArguments::AngleBracketed(Some(arg)) => match *arg {
                        GenericArgument::Type(FieldType::Path(q)) => Some(
                            (
                                if q.last.ident@ == "u8"@ {
                                    Encoding::Bytes
                                } else {
                                    packed_encoding(attr)
                                },
                                0,
                            ),
                        ),
                        _ => None,
                    },
                    _ => None,
                }
            } else if p.last.ident@ == "Option"@ {
                match p.last.arguments {
                    PathArguments::AngleBracketed(Some(arg)) => match *arg {
                        GenericArgument::Type(inner) => match spec_write_plan(inner, attr) {
                            Some((e, d)) => Some((e, d + 1)),
                            None => None,
                        },
                        GenericArgument::Other => None,
                    },
                    _ => None,
                }
            } else if attr.nested {
                Some((Encoding::Message, 0))
            } else {
                Some((Encoding::Varint, 0))
            }
        },
        FieldType::Other(_) => None,
    }
}

/// The method that writes a field of the encoding.
pub open spec fn write_method_text(e: Encoding) -> Seq<char> {
    match e {
        Encoding::Varint => "pbf.write_varint_field"@,
        Encoding::SVarint => "pbf.write_s_varint_field"@,
        Encoding::Fixed => "pbf.write_fixed_field"@,
        Encoding::Str => "pbf.write_string_field"@,
        Encoding::Bytes => "pbf.write_bytes_field"@,
        Encoding::Packed => "pbf.write_packed_varint"@,
        Encoding::SPacked => "pbf.write_packed_s_varint"@,
        Encoding::Message => "pbf.write_message"@,
    }
}

/// The place that holds the value: a binding, or a field of `self`.
pub open spec fn place_text(name: Seq<char>, is_binding: bool) -> Seq<char> {
    if is_binding {
        name
    } else {
        "self."@ + name
    }
}

/// The value itself: a binding is a reference and is dereferenced.
pub open spec fn value_text(name: Seq<char>, is_binding: bool) -> Seq<char> {
    if is_binding {
        "*"@ + name
    } else {
        "self."@ + name
    }
}

/// The argument handed to the write: scalars by value, everything else by
/// reference.
pub open spec fn write_arg_text(e: Encoding, name: Seq<char>, is_binding: bool) -> Seq<char> {
    match e {
        Encoding::Varint | Encoding::SVarint | Encoding::Fixed => value_text(name, is_binding),
        Encoding::Str => "&"@ + place_text(name, is_binding),
        _ => "&"@ + value_text(name, is_binding),
    }
}

/// The statement that writes `name` under `tag`, inside `depth` checks that an
/// `Option` is present; inside each check `name` is bound to the content.
pub open spec fn write_stmt_text(
    e: Encoding,
    depth: nat,
    name: Seq<char>,
    tag: u64,
    is_binding: bool,
) -> Seq<char>
    decreases depth,
{
    if depth == 0 {
        write_method_text(e) + "("@ + tag_text(tag) + ", "@ + write_arg_text(e, name, is_binding)
            + ");"@
    } else {
        "if let Some("@ + name + ") = &"@ + place_text(name, is_binding) + " { "@
            + write_stmt_text(e, (depth - 1) as nat, name, tag, true) + " }"@
    }
}

/// The write statements of a struct's fields, numbered from `index`.
///
/// Fields marked `ignore` get no statement and take no tag. Every other field
/// gets its explicit tag or else the running index, and the running index
/// becomes that tag plus one. The first field whose attributes did not parse,
/// whose type has no write, or whose tag is `u64::MAX` makes the derive fail.
pub open spec fn struct_write_plans(fields: Seq<Field>, index: u64) -> Result<
    Seq<WriteArm>,
    DeriveError,
>
    decreases fields.len(),
{
    if fields.len() == 0 {
        Ok(Seq::empty())
    } else {
        let field = fields[0];
        match field.attrs {
            Err(msg) => Err(DeriveError::Attributes(msg)),
            Ok(attr) => {
                if attr.ignore {
                    struct_write_plans(fields.drop_first(), index)
                } else {
                    let tag = resolve_tag(attr, index);
                    match spec_write_plan(field.ty, attr) {
                        None => Err(DeriveError::UnsupportedType(type_text(field.ty))),
                        Some((encoding, depth)) => {
                            if tag == u64::MAX {
                                Err(DeriveError::TagOverflow)
                            } else {
                                after(
                                    seq![WriteArm { tag, field: field.ident, encoding, depth }],
                                    struct_write_plans(fields.drop_first(), (tag + 1) as u64),
                                )
                            }
                        },
                    }
                }
            },
        }
    }
}

/// The write arms of one enum variant's fields, all under `tag`; `position`
/// is the position of the first of `fields` in the variant.
pub open spec fn variant_write_plans(
    fields: Seq<FieldType>,
    position: nat,
    tag: u64,
    variant: String,
    attr: FieldAttributes,
) -> Result<Seq<WriteEnumArm>, DeriveError>
    decreases fields.len(),
{
    if fields.len() == 0 {
        Ok(Seq::empty())
    } else if attr.ignore {
        variant_write_plans(fields.drop_first(), position + 1, tag, variant, attr)
    } else {
        match spec_write_plan(fields[0], attr) {
            None => Err(DeriveError::UnsupportedType(type_text(fields[0]))),
            Some((encoding, depth)) => after(
                seq![WriteEnumArm::Field { tag, variant, position, encoding, depth }],
                variant_write_plans(fields.drop_first(), position + 1, tag, variant, attr),
            ),
        }
    }
}

/// The write arms of an enum's variants, numbered from `index`.
///
/// A unit variant gets an empty field under the running index, whatever its
/// attributes say, and leaves the index as it is. A variant with fields gets
/// one arm per field that is not ignored, under its explicit tag or else the
/// running index, and moves the index one past that tag.
pub open spec fn enum_write_plans(variants: Seq<Variant>, index: u64) -> Result<
    Seq<WriteEnumArm>,
    DeriveError,
>
    decreases variants.len(),
{
    if variants.len() == 0 {
        Ok(Seq::empty())
    } else {
        let v = variants[0];
        match v.attrs {
            Err(msg) => Err(DeriveError::Attributes(msg)),
            Ok(attr) => {
                if v.fields.len() == 0 {
                    after(
                        seq![WriteEnumArm::Unit { tag: index, variant: v.ident }],
                        enum_write_plans(variants.drop_first(), index),
                    )
                } else {
                    let tag = resolve_tag(attr, index);
                    match variant_write_plans(v.fields@, 0, tag, v.ident, attr) {
                        Err(e) => Err(e),
                        Ok(arms) => {
                            if tag == u64::MAX {
                                Err(DeriveError::TagOverflow)
                            } else {
                                after(arms, enum_write_plans(variants.drop_first(), (tag + 1) as u64))
                            }
                        },
                    }
                }
            },
        }
    }
}

/// The statements of a struct's `write`, each followed by a space.
pub open spec fn write_stmts_text(arms: Seq<WriteArm>) -> Seq<char>
    decreases arms.len(),
{
    if arms.len() == 0 {
        Seq::empty()
    } else {
        let a = arms.last();
        write_stmts_text(arms.drop_last()) + write_stmt_text(a.encoding, a.depth, a.field@, a.tag, false)
            + " "@
    }
}

/// The name a variant's field is bound to: `field` and its position.
pub open spec fn binding_text(position: nat) -> Seq<char> {
    "field"@ + decimal(position)
}

/// One arm of an enum's `match self`.
pub open spec fn enum_write_arm_text(name: Seq<char>, arm: WriteEnumArm) -> Seq<char> {
    match arm {
        WriteEnumArm::Unit { tag, variant } => name + "::"@ + variant@ + " => pbf.write_field("@
            + tag_text(tag) + ", Type::None),"@,
        WriteEnumArm::Field { tag, variant, position, encoding, depth } => name + "::"@ + variant@
            + "("@ + binding_text(position) + ") => { "@ + write_stmt_text(
            encoding,
            depth,
            binding_text(position),
            tag,
            true,
        ) + " },"@,
    }
}

/// The arms of an enum's `match self`, each followed by a space.
pub open spec fn enum_write_arms_text(name: Seq<char>, arms: Seq<WriteEnumArm>) -> Seq<char>
    decreases arms.len(),
{
    if arms.len() == 0 {
        Seq::empty()
    } else {
        enum_write_arms_text(name, arms.drop_last()) + enum_write_arm_text(name, arms.last())
            + " "@
    }
}

/// The `ProtoWrite` impl of struct `name` with the given statements.
pub open spec fn write_struct_text(name: Seq<char>, arms: Seq<WriteArm>) -> Seq<char> {
    "impl ProtoWrite for "@ + name + " { fn write(&self, pbf: &mut Protobuf) { "@
        + write_stmts_text(arms) + "} }"@
}

/// The `ProtoWrite` impl of enum `name` with the given arms.
pub open spec fn write_enum_text(name: Seq<char>, arms: Seq<WriteEnumArm>) -> Seq<char> {
    "impl ProtoWrite for "@ + name + " { fn write(&self, pbf: &mut Protobuf) { match self { "@
        + enum_write_arms_text(name, arms) + "} } }"@
}

/// What deriving `ProtoWrite` for struct `name` gives.
pub open spec fn write_struct_result(data: DataStruct, name: Seq<char>) -> Result<
    Seq<char>,
    DeriveError,
> {
    match data.fields {
        Fields::Named(fields) => match struct_write_plans(fields@, 0) {
            Ok(arms) => Ok(write_struct_text(name, arms)),
            Err(e) => Err(e),
        },
        _ => Err(DeriveError::NotNamedFields),
    }
}

/// What deriving `ProtoWrite` for enum `name` gives.
pub open spec fn write_enum_result(data: DataEnum, name: Seq<char>) -> Result<
    Seq<char>,
    DeriveError,
> {
    match enum_write_plans(data.variants@, 0) {
        Ok(arms) => Ok(write_enum_text(name, arms)),
        Err(e) => Err(e),
    }
}

/// The statement that writes `name` under `tag`, with no `Option` around it.
fn write_call(e: Encoding, tag: u64, name: &String, is_binding: bool) -> (res: String)
    ensures
        res@ == write_stmt_text(e, 0, name@, tag, is_binding),
{
    let method = match e {
        Encoding::Varint => "pbf.write_varint_field",
        Encoding::SVarint => "pbf.write_s_varint_field",
        Encoding::Fixed => "pbf.write_fixed_field",
        Encoding::Str => "pbf.write_string_field",
        Encoding::Bytes => "pbf.write_bytes_field",
        Encoding::Packed => "pbf.write_packed_varint",
        Encoding::SPacked => "pbf.write_packed_s_varint",
        Encoding::Message => "pbf.write_message",
    };
    let mut place = if is_binding {
        String::new()
    } else {
        String::from_str("self.")
    };
    place.append(name.as_str());
    let mut value = if is_binding {
        String::from_str("*")
    } else {
        String::from_str("self.")
    };
    value.append(name.as_str());
    let arg = match e {
        Encoding::Varint | Encoding::SVarint | Encoding::Fixed => value,
        Encoding::Str => {
            let mut a = String::from_str("&");
            a.append(place.as_str());
            a
        },
        _ => {
            let mut a = String::from_str("&");
            a.append(value.as_str());
            a
        },
    };
    let mut s = String::from_str(method);
    s.append("(");
    let t = tag_literal(tag);
    s.append(t.as_str());
    s.append(", ");
    s.append(arg.as_str());
    s.append(");");
    proof {
        assert(place@ =~= place_text(name@, is_binding));
        assert(value@ =~= value_text(name@, is_binding));
    }
    s
}

/// The statement of a struct's or an enum's `write` for the value `field_name`
/// of type `field_type`: under the explicit tag, else under `field_index`.
/// `is_option` says that `field_name` is a binding rather than a field of
/// `self`. `None` where no write is known for the type.
pub fn field_type_to_write_method(
    field_type: &FieldType,
    field_name: &String,
    field_index: u64,
    attr: &FieldAttributes,
    is_option: bool,
) -> (res: Option<String>)
    ensures
        match spec_write_plan(*field_type, *attr) {
            Some((e, d)) => res matches Some(s) && s@ == write_stmt_text(
                e,
                d,
                field_name@,
                resolve_tag(*attr, field_index),
                is_option,
            ),
            None => res is None,
        },
    decreases field_type,
{
    let field_index = resolved_tag(attr, field_index);
    match field_type {
        FieldType::Path(path) => {
            if is_primitive_path(path) {
                Some(write_call(scalar_encoding_of(attr), field_index, field_name, is_option))
            } else if path_is_ident(path, "String") {
                Some(write_call(Encoding::Str, field_index, field_name, is_option))
            } else if ident_is(&path.last.ident, "Vec") {
                match &path.last.arguments {
                    PathArguments::AngleBracketed(Some(arg)) => match &**arg {
                        GenericArgument::Type(FieldType::Path(inner)) => {
                            let e = if ident_is(&inner.last.ident, "u8") {
                                Encoding::Bytes
                            } else {
                                packed_encoding_of(attr)
                            };
                            Some(write_call(e, field_index, field_name, is_option))
                        },
                        _ => None,
                    },
                    _ => None,
                }
            } else if ident_is(&path.last.ident, "Option") {
                match &path.last.arguments {
                    PathArguments::AngleBracketed(Some(arg)) => match &**arg {
                        GenericArgument::Type(inner_type) => {
                            match field_type_to_write_method(
                                inner_type,
                                field_name,
                                field_index,
                                attr,
                                true,
                            ) {
                                Some(internal_field) => {
                                    let mut s = String::from_str("if let Some(");
                                    s.append(field_name.as_str());
                                    s.append(") = &");
                                    if !is_option {
                                        s.append("self.");
                                    }
                                    s.append(field_name.as_str());
                                    s.append(" { ");
                                    s.append(internal_field.as_str());
                                    s.append(" }");
                                    proof {
                                        let (e, d) = spec_write_plan(*inner_type, *attr).unwrap();
                                        assert(s@ =~= write_stmt_text(
                                            e,
                                            d + 1,
                                            field_name@,
                                            field_index,
                                            is_option,
                                        ));
                                    }
                                    Some(s)
                                },
                                None => None,
                            }
                        },
                        GenericArgument::Other => None,
                    },
                    _ => None,
                }
            } else if attr.nested {
                Some(write_call(Encoding::Message, field_index, field_name, is_option))
            } else {
                Some(write_call(Encoding::Varint, field_index, field_name, is_option))
            }
        },
        FieldType::Other(_) => None,
    }
}

/// The generated `ProtoWrite` impl of struct `name`: one write statement per
/// field that is not ignored (see [`struct_write_plans`]).
fn render_write_struct(data_struct: &DataStruct, name: &String) -> (res: Result<
    String,
    DeriveError,
>)
    ensures
        match res {
            Ok(s) => write_struct_result(*data_struct, name@) == Ok::<Seq<char>, DeriveError>(s@),
            Err(e) => write_struct_result(*data_struct, name@) == Err::<Seq<char>, DeriveError>(e),
        },
{
    let fields = match &data_struct.fields {
        Fields::Named(fields) => fields,
        _ => return Err(DeriveError::NotNamedFields),
    };
    let mut stmts = String::new();
    let mut field_index: u64 = 0;
    let ghost mut done: Seq<WriteArm> = Seq::empty();
    let mut i: usize = 0;
    proof {
        assert(fields@.skip(0) =~= fields@);
        match struct_write_plans(fields@, 0) {
            Ok(r) => assert(done + r =~= r),
            Err(_) => {},
        }
    }
    while i < fields.len()
        invariant
            i <= fields.len(),
            data_struct.fields == Fields::Named(*fields),
            struct_write_plans(fields@, 0) == after(
                done,
                struct_write_plans(fields@.skip(i as int), field_index),
            ),
            stmts@ == write_stmts_text(done),
        decreases fields.len() - i,
    {
        let field = &fields[i];
        let ghost rest = fields@.skip(i as int);
        proof {
            assert(rest[0] == fields@[i as int]);
            assert(rest.drop_first() =~= fields@.skip(i + 1));
        }
        let attr = match &field.attrs {
            Err(msg) => return Err(DeriveError::Attributes(msg.clone())),
            Ok(a) => *a,
        };
        if attr.ignore {
            i += 1;
            continue ;
        }
        let stmt = match field_type_to_write_method(&field.ty, &field.ident, field_index, &attr, false) {
            Some(stmt) => stmt,
            None => return Err(DeriveError::UnsupportedType(type_text_of(&field.ty))),
        };
        let ghost tag = resolve_tag(attr, field_index);
        let next = match next_index(&attr, field_index) {
            Ok(n) => n,
            Err(e) => return Err(e),
        };
        push_arm(&mut stmts, &stmt);
        proof {
            let (encoding, depth) = spec_write_plan(field.ty, attr).unwrap();
            let a = WriteArm { tag, field: field.ident, encoding, depth };
            let nd = done.push(a);
            assert(nd.drop_last() =~= done);
            match struct_write_plans(fields@.skip(i + 1), next) {
                Ok(r) => {
                    assert(done + (seq![a] + r) =~= nd + r);
                },
                Err(_) => {},
            }
            done = nd;
        }
        field_index = next;
        i += 1;
    }
    proof {
        assert(fields@.skip(i as int) =~= Seq::<Field>::empty());
        assert(done + Seq::<WriteArm>::empty() =~= done);
    }
    let mut s = String::from_str("impl ProtoWrite for ");
    s.append(name.as_str());
    s.append(" { fn write(&self, pbf: &mut Protobuf) { ");
    s.append(stmts.as_str());
    s.append("} }");
    Ok(s)
}

/// The name a variant's field at `position` is bound to.
fn binding_name(position: usize) -> (res: String)
    ensures
        res@ == binding_text(position as nat),
{
    let mut s = String::from_str("field");
    append_decimal(&mut s, position as u64);
    s
}

/// Appends the arms of one variant with fields to `arms`, all under the
/// variant's explicit tag, else under `field_index`.
fn write_variant_arms(
    fields: &Vec<FieldType>,
    name: &String,
    variant: &String,
    attr: &FieldAttributes,
    field_index: u64,
    arms: &mut String,
    Ghost(done): Ghost<Seq<WriteEnumArm>>,
) -> (res: Result<(), DeriveError>)
    requires
        old(arms)@ == enum_write_arms_text(name@, done),
    ensures
        match variant_write_plans(fields@, 0, resolve_tag(*attr, field_index), *variant, *attr) {
            Ok(vs) => res is Ok && final(arms)@ == enum_write_arms_text(name@, done + vs),
            Err(e) => res == Err::<(), DeriveError>(e),
        },
{
    let ghost tag = resolve_tag(*attr, field_index);
    let ghost mut vdone: Seq<WriteEnumArm> = Seq::empty();
    let mut j: usize = 0;
    proof {
        assert(fields@.skip(0) =~= fields@);
        assert(done + vdone =~= done);
        match variant_write_plans(fields@, 0, tag, *variant, *attr) {
            Ok(r) => assert(vdone + r =~= r),
            Err(_) => {},
        }
    }
    while j < fields.len()
        invariant
            j <= fields.len(),
            tag == resolve_tag(*attr, field_index),
            variant_write_plans(fields@, 0, tag, *variant, *attr) == after(
                vdone,
                variant_write_plans(fields@.skip(j as int), j as nat, tag, *variant, *attr),
            ),
            arms@ == enum_write_arms_text(name@, done + vdone),
        decreases fields.len() - j,
    {
        let ghost rest = fields@.skip(j as int);
        proof {
            assert(rest[0] == fields@[j as int]);
            assert(rest.drop_first() =~= fields@.skip(j + 1));
        }
        if attr.ignore {
            j += 1;
            continue ;
        }
        let field_name = binding_name(j);
        let stmt = match field_type_to_write_method(&fields[j], &field_name, field_index, attr, true) {
            Some(stmt) => stmt,
            None => return Err(DeriveError::UnsupportedType(type_text_of(&fields[j]))),
        };
        let mut arm = name.clone();
        arm.append("::");
        arm.append(variant.as_str());
        arm.append("(");
        arm.append(field_name.as_str());
        arm.append(") => { ");
        arm.append(stmt.as_str());
        arm.append(" },");
        push_arm(arms, &arm);
        proof {
            let (encoding, depth) = spec_write_plan(fields@[j as int], *attr).unwrap();
            let a = WriteEnumArm::Field {
                tag,
                variant: *variant,
                position: j as nat,
                encoding,
                depth,
            };
            assert(arm@ =~= enum_write_arm_text(name@, a));
            let nv = vdone.push(a);
            assert((done + nv).drop_last() =~= done + vdone);
            assert((done + nv).last() == a);
            match variant_write_plans(fields@.skip(j + 1), (j + 1) as nat, tag, *variant, *attr) {
                Ok(r) => {
                    assert(vdone + (seq![a] + r) =~= nv + r);
                },
                Err(_) => {},
            }
            vdone = nv;
        }
        j += 1;
    }
    proof {
        assert(fields@.skip(j as int) =~= Seq::<FieldType>::empty());
        assert(vdone + Seq::<WriteEnumArm>::empty() =~= vdone);
    }
    Ok(())
}

/// The generated `ProtoWrite` impl of enum `name`: a `match self` with one arm
/// per unit variant and per field that is not ignored (see
/// [`enum_write_plans`]).
fn render_write_enum(data_enum: &DataEnum, name: &String) -> (res: Result<
    String,
    DeriveError,
>)
    ensures
        match res {
            Ok(s) => write_enum_result(*data_enum, name@) == Ok::<Seq<char>, DeriveError>(s@),
            Err(e) => write_enum_result(*data_enum, name@) == Err::<Seq<char>, DeriveError>(e),
        },
{
    let variants = &data_enum.variants;
    let mut arms = String::new();
    let mut field_index: u64 = 0;
    let ghost mut done: Seq<WriteEnumArm> = Seq::empty();
    let mut i: usize = 0;
    proof {
        assert(variants@.skip(0) =~= variants@);
        match enum_write_plans(variants@, 0) {
            Ok(r) => assert(done + r =~= r),
            Err(_) => {},
        }
    }
    while i < variants.len()
        invariant
            i <= variants.len(),
            *variants == data_enum.variants,
            enum_write_plans(variants@, 0) == after(
                done,
                enum_write_plans(variants@.skip(i as int), field_index),
            ),
            arms@ == enum_write_arms_text(name@, done),
        decreases variants.len() - i,
    {
        let variant = &variants[i];
        let ghost rest = variants@.skip(i as int);
        proof {
            assert(rest[0] == variants@[i as int]);
            assert(rest.drop_first() =~= variants@.skip(i + 1));
        }
        let attr = match &variant.attrs {
            Err(msg) => return Err(DeriveError::Attributes(msg.clone())),
            Ok(a) => *a,
        };
        if variant.fields.len() == 0 {
            let mut arm = name.clone();
            arm.append("::");
            arm.append(variant.ident.as_str());
            arm.append(" => pbf.write_field(");
            let t = tag_literal(field_index);
            arm.append(t.as_str());
            arm.append(", Type::None),");
            push_arm(&mut arms, &arm);
            proof {
                let a = WriteEnumArm::Unit { tag: field_index, variant: variant.ident };
                assert(arm@ =~= enum_write_arm_text(name@, a));
                let nd = done.push(a);
                assert(nd.drop_last() =~= done);
                match enum_write_plans(variants@.skip(i + 1), field_index) {
                    Ok(r) => {
                        assert(done + (seq![a] + r) =~= nd + r);
                    },
                    Err(_) => {},
                }
                done = nd;
            }
        } else {
            match write_variant_arms(
                &variant.fields,
                name,
                &variant.ident,
                &attr,
                field_index,
                &mut arms,
                Ghost(done),
            ) {
                Ok(()) => {},
                Err(e) => return Err(e),
            }
            let next = match next_index(&attr, field_index) {
                Ok(n) => n,
                Err(e) => return Err(e),
            };
            proof {
                let tag = resolve_tag(attr, field_index);
                let vs = variant_write_plans(variant.fields@, 0, tag, variant.ident, attr).unwrap();
                match enum_write_plans(variants@.skip(i + 1), next) {
                    Ok(r) => {
                        assert(done + (vs + r) =~= (done + vs) + r);
                    },
                    Err(_) => {},
                }
                done = done + vs;
            }
            field_index = next;
        }
        i += 1;
    }
    proof {
        assert(variants@.skip(i as int) =~= Seq::<Variant>::empty());
        assert(done + Seq::<WriteEnumArm>::empty() =~= done);
    }
    let mut s = String::from_str("impl ProtoWrite for ");
    s.append(name.as_str());
    s.append(" { fn write(&self, pbf: &mut Protobuf) { match self { ");
    s.append(arms.as_str());
    s.append("} } }");
    Ok(s)
}

/// Why deriving `ProtoWrite` refuses the struct: it does not have named
/// fields, or a field's attributes did not parse, or a field that is not
/// ignored has a type with no write, or a tag is `u64::MAX` so that the next
/// one would not fit (see [`struct_write_plans`]). `None` where the derive
/// accepts it.
pub open spec fn write_struct_refusal(data: DataStruct) -> Option<DeriveError> {
    match data.fields {
        Fields::Named(fields) => match struct_write_plans(fields@, 0) {
            Ok(_) => None,
            Err(e) => Some(e),
        },
        _ => Some(DeriveError::NotNamedFields),
    }
}

/// Why deriving `ProtoWrite` refuses the enum: a variant's attributes did not
/// parse, or a field of a variant that is not ignored has a type with no write,
/// or a tag is `u64::MAX` so that the next one would not fit (see
/// [`enum_write_plans`]). `None` where the derive accepts it.
pub open spec fn write_enum_refusal(data: DataEnum) -> Option<DeriveError> {
    match enum_write_plans(data.variants@, 0) {
        Ok(_) => None,
        Err(e) => Some(e),
    }
}

/// Why deriving `ProtoWrite` refuses the struct, the first reason in field order;
/// `None` where it accepts it. The derive itself is called only where this is
/// `None`.
pub fn proto_write_struct_refusal(data_struct: &DataStruct) -> (res: Option<DeriveError>)
    ensures
        res == write_struct_refusal(*data_struct),
        res is None <==> (data_struct.fields is Named && attrs_parsed(data_struct.fields->Named_0@) && fields_have_write(data_struct.fields->Named_0@) && tags_fit(data_struct.fields->Named_0@, 0)),
{
    proof {
        lemma_struct_write_accepts(data_struct.fields->Named_0@, 0);
    }
    match render_write_struct(data_struct, &String::new()) {
        Ok(_) => None,
        Err(e) => Some(e),
    }
}

/// Why deriving `ProtoWrite` refuses the enum, the first reason in variant order;
/// `None` where it accepts it. The derive itself is called only where this is
/// `None`.
pub fn proto_write_enum_refusal(data_enum: &DataEnum) -> (res: Option<DeriveError>)
    ensures
        res == write_enum_refusal(*data_enum),
        res is None <==> (variant_attrs_parsed(data_enum.variants@) && variants_have_write(data_enum.variants@) && enum_write_tags_fit(data_enum.variants@, 0)),
{
    proof {
        lemma_enum_write_accepts(data_enum.variants@, 0);
    }
    match render_write_enum(data_enum, &String::new()) {
        Ok(_) => None,
        Err(e) => Some(e),
    }
}

/// The `ProtoWrite` impl of struct `name` (see [`write_struct_text`]) inside the
/// wrapper that brings in the core crate `pbf_core` (see [`wrapper_text`]).
pub fn derive_proto_write_struct(data_struct: &DataStruct, name: &String, pbf_core: &String) -> (res:
    String)
    requires
        data_struct.fields is Named,
        attrs_parsed(data_struct.fields->Named_0@),
        fields_have_write(data_struct.fields->Named_0@),
        tags_fit(data_struct.fields->Named_0@, 0),
    ensures
        data_struct.fields matches Fields::Named(fields) && res@ == wrapper_text(
            pbf_core@,
            write_struct_text(name@, struct_write_plans(fields@, 0)->Ok_0),
        ),
{
    proof {
        lemma_struct_write_accepts(data_struct.fields->Named_0@, 0);
    }
    match render_write_struct(data_struct, name) {
        Ok(item) => wrap_item(pbf_core, &item),
        Err(_) => {
            proof {
                assert(false);
            }
            String::new()
        },
    }
}

/// The `ProtoWrite` impl of enum `name` (see [`write_enum_text`]) inside the
/// wrapper that brings in the core crate `pbf_core` (see [`wrapper_text`]).
pub fn derive_proto_write_enum(data_enum: &DataEnum, name: &String, pbf_core: &String) -> (res:
    String)
    requires
        variant_attrs_parsed(data_enum.variants@),
        variants_have_write(data_enum.variants@),
        enum_write_tags_fit(data_enum.variants@, 0),
    ensures
        res@ == wrapper_text(
            pbf_core@,
            write_enum_text(name@, enum_write_plans(data_enum.variants@, 0)->Ok_0),
        ),
{
    proof {
        lemma_enum_write_accepts(data_enum.variants@, 0);
    }
    match render_write_enum(data_enum, name) {
        Ok(item) => wrap_item(pbf_core, &item),
        Err(_) => {
            proof {
                assert(false);
            }
            String::new()
        },
    }
}

} // verus!
