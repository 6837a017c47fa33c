//! Planning and rendering of the `ProtoRead` and `ProtoWrite` implementations
//! that the protobuf derives produce for a struct or an enum.
//!
//! The input is a plain description of the annotated item (see [`model`]); the
//! output is the text of the generated `impl` block.
use vstd::prelude::*;

pub mod model;
pub mod text;
pub mod read;
pub mod write;
pub mod laws;
pub mod accept;
pub mod field_laws;

verus! {

} // verus!
