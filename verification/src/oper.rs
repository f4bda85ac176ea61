//! Structures that store information about operations (future nodes).

use crate::{Precedence, Space, Span};
use vstd::prelude::*;

verus! {

/// Information about an operation (a future node).
#[derive(Debug, Clone)]
pub struct OperInfo<Oper> {
    /// The internal operation.
    pub oper: Oper,
    /// Span of the operation.
    pub span: Span,
    /// The amount of inputs the operation may have.
    pub space: Space,
    /// The precedence of the operation.
    pub precedence: Precedence,
}

/// Possible operations from a token: a token may stand for different
/// operations depending on how many input slots are available around it.
#[derive(Debug, Clone)]
pub struct OperOption<Oper> {
    /// A possible operation that requires there be no input nodes (`x`).
    pub no_space: Option<OperInfo<Oper>>,
    /// A possible operation that requires a single input node to the right
    /// of it (`x _`).
    pub single_space: Option<OperInfo<Oper>>,
    /// A possible operation that requires two input nodes surrounding it
    /// (`_ x _`).
    pub double_space: Option<OperInfo<Oper>>,
}

impl<Oper> OperOption<Oper> {
    /// Creates an `OperOption` with only one option (`no_space`).
    #[inline]
    pub fn no_space(info: OperInfo<Oper>) -> (r: Self)
        ensures
            r.no_space == Option::Some(info),
            r.single_space is None,
            r.double_space is None,
    {
        Self { no_space: Option::Some(info), single_space: Option::None, double_space: Option::None }
    }

    /// Creates an `OperOption` with only one option (`single_space`).
    #[inline]
    pub fn single_space(info: OperInfo<Oper>) -> (r: Self)
        ensures
            r.no_space is None,
            r.single_space == Option::Some(info),
            r.double_space is None,
    {
        Self { no_space: Option::None, single_space: Option::Some(info), double_space: Option::None }
    }

    /// Creates an `OperOption` with only one option (`double_space`).
    #[inline]
    pub fn double_space(info: OperInfo<Oper>) -> (r: Self)
        ensures
            r.no_space is None,
            r.single_space is None,
            r.double_space == Option::Some(info),
    {
        Self { no_space: Option::None, single_space: Option::None, double_space: Option::Some(info) }
    }
}

} // verus!
