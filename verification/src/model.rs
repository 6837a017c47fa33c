//! The plain description of an annotated item: what the derives read from the
//! Rust syntax of a struct or an enum, and the field attributes.
use vstd::prelude::*;

use crate::text::ident_is;

verus! {

/// The field or variant attributes that steer the generated code.
#[derive(Clone, Copy, Debug)]
pub struct FieldAttributes {
    /// An explicit protobuf tag; the fields after it continue from it.
    pub tag: Option<u64>,
    /// Zig-zag encoding for signed integers.
    pub signed: bool,
    /// Fixed-width encoding.
    pub fixed: bool,
    /// The field is a nested message.
    pub nested: bool,
    /// The field is left out of the message.
    pub ignore: bool,
}

/// The type of a field, as far as the derives look into it.
#[derive(Debug)]
pub enum FieldType {
    /// A path type such as `u32`, `Vec<u8>` or `crate::Message`.
    Path(TypePath),
    /// Any other type (reference, tuple, array, ...), with its source text.
    Other(String),
}

/// A path type.
#[derive(Debug)]
pub struct TypePath {
    /// Whether the path starts with `::`.
    pub leading_colon: bool,
    /// The identifiers of the segments before the last one.
    pub prefix: Vec<String>,
    /// The last segment.
    pub last: PathSegment,
    /// The source text of the whole type.
    pub text: String,
}

/// One segment of a path: its identifier and its arguments.
#[derive(Debug)]
pub struct PathSegment {
    pub ident: String,
    pub arguments: PathArguments,
}

/// The arguments of a path segment.
#[derive(Debug)]
pub enum PathArguments {
    /// No arguments, as in `String`.
    Empty,
    /// Arguments in angle brackets, as in `Vec<T>`; only the first one is kept.
    AngleBracketed(Option<Box<GenericArgument>>),
    /// Arguments in parentheses, as in `Fn(A) -> B`.
    Parenthesized,
}

/// A generic argument.
#[derive(Debug)]
pub enum GenericArgument {
    /// A type argument.
    Type(FieldType),
    /// A lifetime, a constant or a binding.
    Other,
}

/// A named field of a struct.
#[derive(Debug)]
pub struct Field {
    pub ident: String,
    pub ty: FieldType,
    /// The parsed attributes, or the message of the attribute parser's error.
    pub attrs: Result<FieldAttributes, String>,
}

/// The fields of a struct.
#[derive(Debug)]
pub enum Fields {
    Named(Vec<Field>),
    Unnamed,
    Unit,
}

/// A struct.
#[derive(Debug)]
pub struct DataStruct {
    pub fields: Fields,
}

/// A variant of an enum.
#[derive(Debug)]
pub struct Variant {
    pub ident: String,
    /// The parsed attributes, or the message of the attribute parser's error.
    pub attrs: Result<FieldAttributes, String>,
    /// The types of the variant's fields, in order.
    pub fields: Vec<FieldType>,
}

/// An enum.
#[derive(Debug)]
pub struct DataEnum {
    pub variants: Vec<Variant>,
}

/// Why a derive refuses an item.
#[derive(Debug)]
pub enum DeriveError {
    /// The attributes of a field or variant could not be parsed.
    Attributes(String),
    /// A field has a type that no encoding is known for; its source text.
    UnsupportedType(String),
    /// The struct does not have named fields.
    NotNamedFields,
    /// The tag that would follow a field is past `u64::MAX`.
    TagOverflow,
}

/// How a value goes over the wire.
#[derive(Clone, Copy, Debug, PartialEq, Eq)]
pub enum Encoding {
    Varint,
    SVarint,
    Fixed,
    Str,
    Bytes,
    Packed,
    SPacked,
    Message,
}

/// The tag a field or variant gets: its explicit tag, else the running index.
pub open spec fn resolve_tag(attr: FieldAttributes, index: u64) -> u64 {
    match attr.tag {
        Some(t) => t,
        None => index,
    }
}

/// Whether the path is the single identifier `s`: no leading `::`, one
/// segment, no arguments.
pub open spec fn is_ident(p: TypePath, s: Seq<char>) -> bool {
    &&& !p.leading_colon
    &&& p.prefix.len() == 0
    &&& p.last.arguments is Empty
    &&& p.last.ident@ == s
}

/// The scalar types written as plain integers.
pub open spec fn is_primitive(p: TypePath) -> bool {
    ||| is_ident(p, "u8"@)
    ||| is_ident(p, "i8"@)
    ||| is_ident(p, "u16"@)
    ||| is_ident(p, "i16"@)
    ||| is_ident(p, "u32"@)
    ||| is_ident(p, "i32"@)
    ||| is_ident(p, "f32"@)
    ||| is_ident(p, "u64"@)
    ||| is_ident(p, "i64"@)
    ||| is_ident(p, "f64"@)
    ||| is_ident(p, "usize"@)
    ||| is_ident(p, "isize"@)
    ||| is_ident(p, "bool"@)
}

/// The source text of a type.
pub open spec fn type_text(ty: FieldType) -> String {
    match ty {
        FieldType::Path(p) => p.text,
        FieldType::Other(t) => t,
    }
}

/// The scalar encoding chosen by the attributes: zig-zag before fixed.
pub open spec fn scalar_encoding(attr: FieldAttributes) -> Encoding {
    if attr.signed {
        Encoding::SVarint
    } else if attr.fixed {
        Encoding::Fixed
    } else {
        Encoding::Varint
    }
}

/// The encoding of a packed repeated field.
pub open spec fn packed_encoding(attr: FieldAttributes) -> Encoding {
    if attr.signed {
        Encoding::SPacked
    } else {
        Encoding::Packed
    }
}

/// The tag a field or variant gets.
pub fn resolved_tag(attr: &FieldAttributes, index: u64) -> (res: u64)
    ensures
        res == resolve_tag(*attr, index),
{
    match attr.tag {
        Some(t) => t,
        None => index,
    }
}

/// Whether the path is the single identifier `s`.
pub fn path_is_ident(p: &TypePath, s: &str) -> (res: bool)
    ensures
        res == is_ident(*p, s@),
{
    if p.leading_colon || p.prefix.len() != 0 {
        return false;
    }
    match p.last.arguments {
        PathArguments::Empty => ident_is(&p.last.ident, s),
        _ => false,
    }
}

/// Whether the path names one of the scalar types.
pub fn is_primitive_path(p: &TypePath) -> (res: bool)
    ensures
        res == is_primitive(*p),
{
    path_is_ident(p, "u8") || path_is_ident(p, "i8") || path_is_ident(p, "u16") || path_is_ident(
        p,
        "i16",
    ) || path_is_ident(p, "u32") || path_is_ident(p, "i32") || path_is_ident(p, "f32")
        || path_is_ident(p, "u64") || path_is_ident(p, "i64") || path_is_ident(p, "f64")
        || path_is_ident(p, "usize") || path_is_ident(p, "isize") || path_is_ident(p, "bool")
}

/// The scalar encoding chosen by the attributes.
pub fn scalar_encoding_of(attr: &FieldAttributes) -> (res: Encoding)
    ensures
        res == scalar_encoding(*attr),
{
    if attr.signed {
        Encoding::SVarint
    } else if attr.fixed {
        Encoding::Fixed
    } else {
        Encoding::Varint
    }
}

/// The encoding of a packed repeated field.
pub fn packed_encoding_of(attr: &FieldAttributes) -> (res: Encoding)
    ensures
        res == packed_encoding(*attr),
{
    if attr.signed {
        Encoding::SPacked
    } else {
        Encoding::Packed
    }
}

/// The source text of a type.
pub fn type_text_of(ty: &FieldType) -> (res: String)
    ensures
        res == type_text(*ty),
{
    match ty {
        FieldType::Path(p) => p.text.clone(),
        FieldType::Other(t) => t.clone(),
    }
}

} // verus!
