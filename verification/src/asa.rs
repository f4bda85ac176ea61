//! The vector-backed abstract syntax array.

use crate::node::Node;
use crate::Precedence;
use vstd::prelude::*;

verus! {

/// An **Abstract Syntax Array**: an efficient, cache-friendly, one
/// dimensional encoding of an abstract syntax tree, stored in pre-order in
/// a vector together with the bookkeeping the insertion functions in
/// [`crate::parse`] need.
#[derive(Debug, Clone)]
pub struct VectorASA<N: Node> {
    /// Whether the array currently forms one fully applied expression.
    pub is_complete: bool,
    /// Index of the most recent node that still misses an input.
    pub last_incomplete: Option<usize>,
    /// The largest precedence value the jump-table covers.
    pub max_precedence: Precedence,
    /// Maps each operator precedence to the most recent splice index for
    /// that precedence, if any.
    pub precedence_jumptable: Vec<Option<usize>>,
    /// The internal vector.
    pub vector: Vec<N>,
}

impl<N: Node> VectorASA<N> {
    /// Soundness of the bookkeeping fields: the jump-table covers every
    /// precedence up to the maximum, every recorded index lies inside the
    /// vector, and a complete array is never empty.
    pub open spec fn wf(&self) -> bool {
        &&& self.precedence_jumptable@.len() == self.max_precedence as int + 1
        &&& forall|j: int|
            0 <= j < self.precedence_jumptable@.len() ==> (match #[trigger] self.precedence_jumptable@[j] {
                Option::Some(k) => k < self.vector@.len(),
                Option::None => true,
            })
        &&& self.is_complete ==> self.vector@.len() >= 1
        &&& match self.last_incomplete {
            Option::Some(i) => i < self.vector@.len(),
            Option::None => true,
        }
    }

    /// The node currently blamed for the array being incomplete, if any.
    pub open spec fn incomplete_node(&self) -> Option<N> {
        match self.last_incomplete {
            Option::Some(i) => Option::Some(self.vector@[i as int]),
            Option::None => Option::None,
        }
    }

    /// Initialises a new, incomplete ASA; `max_precedence` is the largest
    /// precedence value the parser will use.
    pub fn new(max_precedence: Precedence) -> (r: Self)
        ensures
            r.wf(),
            !r.is_complete,
            r.last_incomplete is None,
            r.max_precedence == max_precedence,
            r.vector@.len() == 0,
            forall|j: int|
                0 <= j < r.precedence_jumptable@.len() ==> r.precedence_jumptable@[j] is None,
    {
        let entries: usize = max_precedence as usize + 1;
        let mut table: Vec<Option<usize>> = Vec::new();
        let mut i: usize = 0;
        while i < entries
            invariant
                i <= entries,
                table@.len() == i as int,
                forall|j: int| 0 <= j < i as int ==> table@[j] is None,
            decreases entries - i,
        {
            table.push(Option::None);
            i += 1;
        }
        Self {
            is_complete: false,
            last_incomplete: Option::None,
            max_precedence,
            precedence_jumptable: table,
            vector: Vec::new(),
        }
    }

    /// Queries the length of the ASA.
    pub fn get_len(&self) -> (r: usize)
        ensures
            r == self.vector@.len(),
    {
        self.vector.len()
    }

    /// Queries a node in the ASA.
    pub fn get_node(&self, idx: usize) -> (r: &N)
        requires
            idx < self.vector@.len(),
        ensures
            *r == self.vector@[idx as int],
    {
        &self.vector[idx]
    }

    /// Pushes a node to the end of the ASA.
    pub fn push(&mut self, node: N)
        ensures
            final(self).vector@ == old(self).vector@.push(node),
            final(self).is_complete == old(self).is_complete,
            final(self).last_incomplete == old(self).last_incomplete,
            final(self).max_precedence == old(self).max_precedence,
            final(self).precedence_jumptable@ == old(self).precedence_jumptable@,
    {
        self.vector.push(node);
    }

    /// Pushes a node to the start of the ASA.
    pub fn push_start(&mut self, node: N)
        ensures
            final(self).vector@ == old(self).vector@.insert(0, node),
            final(self).is_complete == old(self).is_complete,
            final(self).last_incomplete == old(self).last_incomplete,
            final(self).max_precedence == old(self).max_precedence,
            final(self).precedence_jumptable@ == old(self).precedence_jumptable@,
    {
        self.vector.insert(0, node);
    }

    /// Inserts a node at an index in the ASA, shifting every later node up
    /// by one position.
    pub fn insert(&mut self, idx: usize, node: N)
        requires
            idx <= old(self).vector@.len(),
        ensures
            final(self).vector@ == old(self).vector@.insert(idx as int, node),
            final(self).is_complete == old(self).is_complete,
            final(self).last_incomplete == old(self).last_incomplete,
            final(self).max_precedence == old(self).max_precedence,
            final(self).precedence_jumptable@ == old(self).precedence_jumptable@,
    {
        self.vector.insert(idx, node);
    }

    /// Returns a mutable pointer to the `is_complete` flag of the ASA.
    pub fn is_complete(&mut self) -> (r: &mut bool)
        ensures
            *r == old(self).is_complete,
            final(self).is_complete == *final(r),
            final(self).last_incomplete == old(self).last_incomplete,
            final(self).max_precedence == old(self).max_precedence,
            final(self).precedence_jumptable@ == old(self).precedence_jumptable@,
            final(self).vector@ == old(self).vector@,
    {
        &mut self.is_complete
    }

    /// Returns a mutable pointer to the `last_incomplete` field of the ASA.
    pub fn last_incomplete(&mut self) -> (r: &mut Option<usize>)
        ensures
            *r == old(self).last_incomplete,
            final(self).last_incomplete == *final(r),
            final(self).is_complete == old(self).is_complete,
            final(self).max_precedence == old(self).max_precedence,
            final(self).precedence_jumptable@ == old(self).precedence_jumptable@,
            final(self).vector@ == old(self).vector@,
    {
        &mut self.last_incomplete
    }

    /// Returns the **maximum** possible precedence the jump-table covers.
    pub fn max_precedence(&self) -> (r: Precedence)
        ensures
            r == self.max_precedence,
    {
        self.max_precedence
    }

    /// Returns a mutable pointer to the precedence jump-table.
    pub fn precedence_jumptable(&mut self) -> (r: &mut Vec<Option<usize>>)
        ensures
            r@ == old(self).precedence_jumptable@,
            final(self).precedence_jumptable@ == final(r)@,
            final(self).is_complete == old(self).is_complete,
            final(self).last_incomplete == old(self).last_incomplete,
            final(self).max_precedence == old(self).max_precedence,
            final(self).vector@ == old(self).vector@,
    {
        &mut self.precedence_jumptable
    }
}

} // verus!
