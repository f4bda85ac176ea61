//! A parser that can *ketch-up* with your programming language.
//!
//! The crate builds a flattened, pre-order *abstract syntax array* (ASA)
//! from a stream of operator descriptions, instead of a pointer-linked
//! syntax tree: each incoming operator either becomes a child of the most
//! recently placed node or splices itself above previously placed nodes,
//! according to precedence and associativity.

use vstd::prelude::*;

pub mod asa;
pub mod error;
pub mod node;
pub mod oper;
pub mod parse;
pub mod parser;

verus! {

/// The precedence of an operation / node: a higher value binds tighter,
/// and operands use the maximum possible value.
pub type Precedence = u8;

/// A location in the parsed source, as a half-open range of byte offsets.
#[derive(Debug, Clone, Copy, PartialEq, Eq, Structural)]
pub struct Span {
    /// Offset of the first byte of the region.
    pub start: usize,
    /// Offset just past the last byte of the region.
    pub end: usize,
}

/// The amount of space a future node may have for input nodes.
#[derive(Debug, Clone, Copy, PartialEq, Eq, Structural)]
pub enum Space {
    /// An operation with no space for other nodes (`x`).
    Zero,
    /// An operation with space for one node after it (`x _`).
    One,
    /// An operation with space for a node before and after it (`_ x _`).
    Two,
}

} // verus!
