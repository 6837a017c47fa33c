//! Text pieces shared by the generated code: decimal numbers, tag literals and
//! identifier comparison.
use vstd::prelude::*;

verus! {

/// The text of one decimal digit.
pub open spec fn digit_text(d: nat) -> Seq<char> {
    if d == 0 {
        "0"@
    } else if d == 1 {
        "1"@
    } else if d == 2 {
        "2"@
    } else if d == 3 {
        "3"@
    } else if d == 4 {
        "4"@
    } else if d == 5 {
        "5"@
    } else if d == 6 {
        "6"@
    } else if d == 7 {
        "7"@
    } else if d == 8 {
        "8"@
    } else {
        "9"@
    }
}

/// The decimal representation of `n`, most significant digit first, without
/// leading zeros.
pub open spec fn decimal(n: nat) -> Seq<char>
    decreases n,
{
    if n < 10 {
        digit_text(n)
    } else {
        decimal(n / 10) + digit_text(n % 10)
    }
}

/// A `u64` literal with its suffix, as a tag is written into the generated code.
pub open spec fn tag_text(tag: u64) -> Seq<char> {
    decimal(tag as nat) + "u64"@
}

/// Appends the decimal representation of `n` to `out`.
pub fn append_decimal(out: &mut String, n: u64)
    ensures
        final(out)@ == old(out)@ + decimal(n as nat),
    decreases n,
{
    let ghost start = out@;
    if n >= 10 {
        append_decimal(out, n / 10);
    }
    let d: u64 = n % 10;
    let piece = if d == 0 {
        "0"
    } else if d == 1 {
        "1"
    } else if d == 2 {
        "2"
    } else if d == 3 {
        "3"
    } else if d == 4 {
        "4"
    } else if d == 5 {
        "5"
    } else if d == 6 {
        "6"
    } else if d == 7 {
        "7"
    } else if d == 8 {
        "8"
    } else {
        "9"
    };
    out.append(piece);
    proof {
        if n >= 10 {
            assert(start + decimal(n as nat) =~= start + decimal((n / 10) as nat) + digit_text(
                (n % 10) as nat,
            ));
        }
    }
}

/// The text of a tag literal, such as `3u64`.
pub fn tag_literal(tag: u64) -> (res: String)
    ensures
        res@ == tag_text(tag),
{
    let mut out = String::new();
    append_decimal(&mut out, tag);
    out.append("u64");
    proof {
        assert(out@ =~= tag_text(tag));
    }
    out
}

/// Whether an identifier's text is exactly `s`.
pub fn ident_is(ident: &String, s: &str) -> (res: bool)
    ensures
        res == (ident@ == s@),
{
    let other = String::from_str(s);
    *ident == other
}

/// The generated item inside its wrapper: an anonymous constant that brings in
/// the core crate under the name `_pbf_core` and uses all of it, so the item
/// compiles whatever the user's crate imports.
pub open spec fn wrapper_text(pbf_core: Seq<char>, item: Seq<char>) -> Seq<char> {
    "#[doc(hidden)] #[allow(non_upper_case_globals, unused_attributes, unused_qualifications, clippy::absolute_paths,)] const _: () = { #[allow(unused_extern_crates, clippy::useless_attribute)] extern crate "@
        + pbf_core
        + " as _pbf_core; #[allow(unused_extern_crates, clippy::useless_attribute)] extern crate alloc; use _pbf_core::*; #[automatically_derived] "@
        + item + " };"@
}

/// Puts the generated item inside its wrapper (see [`wrapper_text`]).
pub fn wrap_item(pbf_core: &String, item: &String) -> (res: String)
    ensures
        res@ == wrapper_text(pbf_core@, item@),
{
    let mut s = String::from_str(
        "#[doc(hidden)] #[allow(non_upper_case_globals, unused_attributes, unused_qualifications, clippy::absolute_paths,)] const _: () = { #[allow(unused_extern_crates, clippy::useless_attribute)] extern crate ",
    );
    s.append(pbf_core.as_str());
    s.append(
        " as _pbf_core; #[allow(unused_extern_crates, clippy::useless_attribute)] extern crate alloc; use _pbf_core::*; #[automatically_derived] ",
    );
    s.append(item.as_str());
    s.append(" };");
    s
}

} // verus!
