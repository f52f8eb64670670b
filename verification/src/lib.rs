//! A geodetic coordinate transformation engine: a textual pipeline
//! definition is normalized, compiled against a registry of builtin,
//! user-registered and macro-defined operators, and executed over chunked
//! batches of coordinate tuples, forward or inverse.  The text engine — the
//! shorthand and longhand grammars, the registries, compilation, and the
//! pipeline schedule — is verified here; the floating-point kernels are
//! supplied by the embedding host through the `op::OperatorKernel` trait.

use vstd::prelude::*;

pub use context::Context;

pub mod adapt;
pub mod args;
pub mod chars;
pub mod compile;
pub mod context;
pub mod gys;
pub mod laws;
pub mod op;
pub mod parse;

verus! {

/// The six ASCII whitespace characters that separate tokens in a
/// definition string.
pub open spec fn is_space_char(c: char) -> bool {
    c == ' ' || c == '\t' || c == '\n' || c == '\r' || c == '\u{b}' || c == '\u{c}'
}

} // verus!
