//! Traits for nodes in the ASA.

use crate::Precedence;
use vstd::prelude::*;

verus! {

/// Different kinds of nodes in the ASA.
#[derive(Debug, Clone, Copy, PartialEq, Eq, Structural)]
pub enum NodeKind {
    /// A terminal node that doesn't require any 'parameters'.
    Operand,
    /// A node that has one 'parameter'.
    Unary,
    /// A node that has two 'parameters'.
    Binary,
}

/// An element in the **Abstract Syntax Array**.
///
/// Each node has a 'type' that determines its precedence and what kind of
/// node it is: an operand, a unary node or a binary node.  The parsing
/// functions only ever query a node's precedence and kind.
///
/// Implementations outside this crate are not verified; the contracts of
/// the three query methods below are trusted to hold of every
/// implementation, just as the parser itself trusts the classification the
/// caller supplies.
pub trait Node: Sized + Clone {
    /// The maximum precedence value used for these nodes.
    const MAX_PRECEDENCE: Precedence;

    /// The precedence of the node, as contracts see it.
    spec fn spec_precedence(&self) -> Precedence;

    /// The kind of the node, as contracts see it.
    spec fn spec_kind(&self) -> NodeKind;

    /// Queries the precedence of the node.
    fn get_precedence(&self) -> (r: Precedence)
        ensures
            r == self.spec_precedence(),
    ;

    /// Queries the kind of node.
    fn get_kind(&self) -> (r: NodeKind)
        ensures
            r == self.spec_kind(),
    ;

    /// An explicit copy of the node, one whose value contracts can track.
    fn dup(&self) -> (r: Self)
        ensures
            r == *self,
    ;
}

} // verus!
