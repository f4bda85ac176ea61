//! Enums for errors in ketchup.

use crate::node;
use crate::{Precedence, Span};
use vstd::prelude::*;

verus! {

/// An error that can occur while filling an abstract syntax array through
/// the functions of [`crate::parse`].
#[derive(Debug, Clone)]
pub enum Error<N: node::Node> {
    /// Occurs when there is an unexpected node inserted when the ASA is
    /// already complete; includes the unexpected node.
    UnexpectedNode(N),
    /// Occurs when there is a required node for an operation that isn't
    /// present; includes the operation (unary or binary) node.
    ExpectedNode(Option<N>),
    /// Occurs when there is a required node for an operation, but instead
    /// found a unary or binary node.
    UnexpectedExpectedNode {
        /// The unary or binary node that requires the node.
        oper: Option<N>,
        /// The unary or binary node found instead.
        found: N,
    },
}

/// An error that can occur while the parser driver in [`crate::parser`]
/// consumes a stream of operator descriptions.
#[derive(Debug, Clone)]
pub enum KError<Token, Other> {
    /// Occurs when a node with two input slots stands where its first input
    /// can never be fulfilled (`/ 1`, `1 + / 2`).
    DoubleSpaceConflict {
        /// Span of where a node with zero space was expected.
        span: Span,
    },
    /// Occurs when a node is added to the ASA that is not expected by the
    /// current node (no space left).
    UnexpectedOper(Span),
    /// Occurs when a node in the ASA is left with a missing input
    /// (non-zero space).
    ExpectedOper {
        /// Span just past the node with the missing input.
        span: Span,
        /// Precedence of the node with the missing input.
        precedence: Precedence,
    },
    /// Occurs when an expected terminator token (such as `)`) is not met.
    ExpectedEOF {
        /// The terminator token itself.
        eof: Token,
        /// Span of where the terminator was expected to be.
        span: Span,
    },
    /// Custom errors from outside of ketchup, such as lexer failures.
    Other(Span, Other),
}

impl<Token, Other> KError<Token, Other> {
    /// The span an error of this kind reports.
    pub open spec fn spec_span(&self) -> Span {
        match self {
            KError::DoubleSpaceConflict { span } => *span,
            KError::UnexpectedOper(span) => *span,
            KError::ExpectedOper { span, .. } => *span,
            KError::ExpectedEOF { span, .. } => *span,
            KError::Other(span, _) => *span,
        }
    }

    /// Returns the span associated with the error.
    pub fn span(&self) -> (r: &Span)
        ensures
            *r == self.spec_span(),
    {
        match self {
            KError::DoubleSpaceConflict { span } => span,
            KError::UnexpectedOper(span) => span,
            KError::ExpectedOper { span, .. } => span,
            KError::ExpectedEOF { span, .. } => span,
            KError::Other(span, _) => span,
        }
    }
}

} // verus!
