//! The rules of the code generator that turns an annotated function into a
//! patch site with its shim.
//!
//! The generator itself works on token streams. What it decides is decided
//! here, on a description of the annotated function in plain values: whether
//! the function can be patched at all, what the function behind the shim is
//! called and how it is called, and which expressions hand the arguments of
//! the shim on to it.

pub mod args;
pub mod expand;
pub mod hotpatch_fn;
