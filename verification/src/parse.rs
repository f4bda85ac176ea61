//! Functions for parsing into and manipulating the ASA.
//!
//! Each function places one node: an operand closes the expression, a
//! left-aligned unary node opens a slot to its right, and right-aligned
//! unary or binary nodes splice themselves above already-placed nodes.
//! The splice position comes from the precedence jump-table: the most
//! recent splice index of a tighter (or, when left-associative, equally
//! tight) operator, or the position just before the last node.

use crate::asa::VectorASA;
use crate::error::Error;
use crate::node::Node;
use crate::Precedence;
use vstd::prelude::*;

verus! {

/// The first recorded jump-table entry at or after index `i`.
pub open spec fn first_entry(lut: Seq<Option<usize>>, i: int) -> Option<usize>
    decreases lut.len() - i,
{
    if i >= lut.len() {
        Option::None
    } else if lut[i] is Some {
        lut[i]
    } else {
        first_entry(lut, i + 1)
    }
}

/// Whether the jump-table holds a splice index for an operator of
/// precedence `prec` with the given associativity.
pub open spec fn lut_found<N: Node>(
    asa: VectorASA<N>,
    prec: Precedence,
    left_associative: bool,
) -> bool {
    first_entry(
        asa.precedence_jumptable@,
        if left_associative {
            prec as int
        } else {
            prec as int + 1
        },
    ) is Some
}

/// The index at which a right-aligned unary or binary node of precedence
/// `prec` is spliced into the array: the most recent recorded index of an
/// operator binding at least as tight (strictly tighter when
/// right-associative), or the position just before the last node when
/// there is none.
pub open spec fn insert_index<N: Node>(
    asa: VectorASA<N>,
    prec: Precedence,
    left_associative: bool,
) -> int {
    match first_entry(
        asa.precedence_jumptable@,
        if left_associative {
            prec as int
        } else {
            prec as int + 1
        },
    ) {
        Option::Some(k) => k as int,
        Option::None => asa.vector@.len() - 1,
    }
}

/// A jump-table entry shifted up by the one position an insertion adds.
pub open spec fn bump(e: Option<usize>) -> Option<usize> {
    match e {
        Option::Some(k) => Option::Some((k + 1) as usize),
        Option::None => Option::None,
    }
}

/// Returns a reference to the incomplete operation in the ASA.
pub fn incomplete_error<N: Node>(asa: &VectorASA<N>) -> (r: Option<&N>)
    requires
        asa.wf(),
        !asa.is_complete,
    ensures
        match r {
            Option::Some(n) => asa.incomplete_node() == Option::Some(*n),
            Option::None => asa.incomplete_node() is None,
        },
{
    match asa.last_incomplete {
        Option::Some(idx) => Option::Some(asa.get_node(idx)),
        Option::None => Option::None,
    }
}

/// Ensures that an ASA is completed; otherwise returns the incomplete
/// operation wrapped in an error.
pub fn ensure_completed<N: Node>(asa: &VectorASA<N>) -> (r: Result<(), Error<N>>)
    requires
        asa.wf(),
    ensures
        asa.is_complete ==> r is Ok,
        !asa.is_complete ==> r == Result::<(), Error<N>>::Err(
            Error::ExpectedNode(asa.incomplete_node()),
        ),
{
    if asa.is_complete {
        Result::Ok(())
    } else {
        let blamed: Option<N> = match incomplete_error(asa) {
            Option::Some(n) => Option::Some(n.dup()),
            Option::None => Option::None,
        };
        Result::Err(Error::ExpectedNode(blamed))
    }
}

/// Parses an operand node and inserts it into the ASA: it fills the open
/// slot of the pending operators, so the array becomes complete.
pub fn operand<N: Node>(node: N, asa: &mut VectorASA<N>) -> (r: Result<(), Error<N>>)
    requires
        old(asa).wf(),
    ensures
        final(asa).wf(),
        old(asa).is_complete ==> r == Result::<(), Error<N>>::Err(Error::UnexpectedNode(node))
            && *final(asa) == *old(asa),
        !old(asa).is_complete ==> {
            &&& r is Ok
            &&& final(asa).vector@ == old(asa).vector@.push(node)
            &&& final(asa).is_complete
            &&& final(asa).last_incomplete == old(asa).last_incomplete
            &&& final(asa).precedence_jumptable@ == old(asa).precedence_jumptable@
            &&& final(asa).max_precedence == old(asa).max_precedence
        },
{
    if asa.is_complete {
        return Result::Err(Error::UnexpectedNode(node));
    }
    asa.push(node);
    asa.is_complete = true;
    Result::Ok(())
}

/// Parses a left-aligned unary node (a prefix operator) and inserts it
/// into the ASA: it is appended with an open slot to its right, and the
/// jump-table remembers its position as the splice point for its
/// precedence.
pub fn unary_left_align<N: Node>(node: N, asa: &mut VectorASA<N>) -> (r: Result<(), Error<N>>)
    requires
        old(asa).wf(),
        node.spec_precedence() <= old(asa).max_precedence,
    ensures
        final(asa).wf(),
        old(asa).is_complete ==> r == Result::<(), Error<N>>::Err(Error::UnexpectedNode(node))
            && *final(asa) == *old(asa),
        !old(asa).is_complete ==> {
            &&& r is Ok
            &&& final(asa).vector@ == old(asa).vector@.push(node)
            &&& !final(asa).is_complete
            &&& final(asa).last_incomplete == Option::Some(old(asa).vector@.len() as usize)
            &&& final(asa).precedence_jumptable@ == old(asa).precedence_jumptable@.update(
                node.spec_precedence() as int,
                Option::Some(old(asa).vector@.len() as usize),
            )
            &&& final(asa).max_precedence == old(asa).max_precedence
        },
{
    if asa.is_complete {
        return Result::Err(Error::UnexpectedNode(node));
    }
    let len = asa.get_len();
    let prec = node.get_precedence();
    asa.precedence_jumptable[prec as usize] = Option::Some(len);
    asa.push(node);
    asa.last_incomplete = Option::Some(len);
    Result::Ok(())
}

/// Inserts a node into the ASA at the index the precedence jump-table
/// dictates for its precedence and associativity, updates the table around
/// the insertion, and returns the index used.
fn insert_lookuptable<N: Node>(node: N, left_associative: bool, asa: &mut VectorASA<N>) -> (r:
    usize)
    requires
        old(asa).wf(),
        old(asa).vector@.len() >= 1,
        node.spec_precedence() <= old(asa).max_precedence,
    ensures
        final(asa).wf(),
        r as int == insert_index(*old(asa), node.spec_precedence(), left_associative),
        final(asa).vector@ == old(asa).vector@.insert(r as int, node),
        final(asa).is_complete == old(asa).is_complete,
        final(asa).last_incomplete == old(asa).last_incomplete,
        final(asa).max_precedence == old(asa).max_precedence,
        final(asa).precedence_jumptable@.len() == old(asa).precedence_jumptable@.len(),
        forall|j: int|
            0 <= j < node.spec_precedence() as int ==> final(asa).precedence_jumptable@[j] == old(
                asa,
            ).precedence_jumptable@[j],
        final(asa).precedence_jumptable@[node.spec_precedence() as int] == Option::Some(r),
        forall|j: int|
            (node.spec_precedence() as int) < j && j < final(asa).precedence_jumptable@.len()
                ==> final(asa).precedence_jumptable@[j] == (if lut_found(
                *old(asa),
                node.spec_precedence(),
                left_associative,
            ) {
                bump(old(asa).precedence_jumptable@[j])
            } else {
                old(asa).precedence_jumptable@[j]
            }),
{
    let prec = node.get_precedence();
    let from: usize = if left_associative {
        prec as usize
    } else {
        prec as usize + 1
    };
    let n: usize = asa.precedence_jumptable.len();

    // find the most recent index of greater (or equal, when
    // left-associative) precedence
    let mut i: usize = from;
    let mut found: Option<usize> = Option::None;
    while i < n && found.is_none()
        invariant
            from <= i <= n,
            n == asa.precedence_jumptable@.len(),
            *asa == *old(asa),
            asa.wf(),
            match found {
                Option::Some(k) => Option::Some(k) == first_entry(
                    asa.precedence_jumptable@,
                    from as int,
                ) && k < asa.vector@.len(),
                Option::None => first_entry(asa.precedence_jumptable@, from as int) == first_entry(
                    asa.precedence_jumptable@,
                    i as int,
                ),
            },
        decreases n - i,
    {
        let e: Option<usize> = asa.precedence_jumptable[i];
        if e.is_some() {
            found = e;
        }
        i += 1;
    }
    proof {
        if found is None {
            assert(i == n);
            assert(first_entry(asa.precedence_jumptable@, i as int) is None);
        }
    }

    match found {
        // if there is one, insert at that index and shift the recorded
        // indices of tighter precedences past the insertion
        Option::Some(idx) => {
            asa.precedence_jumptable[prec as usize] = Option::Some(idx);
            let ghost mid = asa.precedence_jumptable@;
            let mut j: usize = prec as usize + 1;
            while j < n
                invariant
                    prec as int + 1 <= j as int <= n as int,
                    n == asa.precedence_jumptable@.len(),
                    n as int == old(asa).precedence_jumptable@.len(),
                    old(asa).wf(),
                    prec == node.spec_precedence(),
                    prec as int <= old(asa).max_precedence as int,
                    idx < old(asa).vector@.len(),
                    asa.vector@ == old(asa).vector@,
                    asa.is_complete == old(asa).is_complete,
                    asa.last_incomplete == old(asa).last_incomplete,
                    asa.max_precedence == old(asa).max_precedence,
                    mid == old(asa).precedence_jumptable@.update(
                        prec as int,
                        Option::Some(idx as usize),
                    ),
                    forall|q: int| 0 <= q < j as int ==> #[trigger] asa.precedence_jumptable@[q]
                        == (if q > prec as int {
                        bump(mid[q])
                    } else {
                        mid[q]
                    }),
                    forall|q: int| j as int <= q < n ==> #[trigger] asa.precedence_jumptable@[q]
                        == mid[q],
                decreases n - j,
            {
                let e: Option<usize> = asa.precedence_jumptable[j];
                match e {
                    Option::Some(k) => {
                        let m: usize = asa.vector.len();
                        proof {
                            assert(asa.precedence_jumptable@[j as int] == mid[j as int]);
                            assert(mid[j as int] == old(asa).precedence_jumptable@[j as int]);
                            assert(k < old(asa).vector@.len());
                            assert(m == asa.vector@.len());
                        }
                        asa.precedence_jumptable[j] = Option::Some(k + 1);
                    },
                    Option::None => {},
                }
                j += 1;
            }
            asa.insert(idx, node);
            idx
        },
        // otherwise, insert just before the last node of the ASA
        Option::None => {
            let end: usize = asa.vector.len() - 1;
            asa.precedence_jumptable[prec as usize] = Option::Some(end);
            asa.insert(end, node);
            end
        },
    }
}

/// Parses a right-aligned unary node (a postfix-style operator that adopts
/// the nodes after its splice position) and inserts it into the ASA
/// according to its associativity.
pub fn unary_right_align<N: Node>(node: N, left_associative: bool, asa: &mut VectorASA<N>) -> (r:
    Result<(), Error<N>>)
    requires
        old(asa).wf(),
        node.spec_precedence() <= old(asa).max_precedence,
    ensures
        final(asa).wf(),
        !old(asa).is_complete ==> r == Result::<(), Error<N>>::Err(
            Error::UnexpectedExpectedNode { oper: old(asa).incomplete_node(), found: node },
        ) && *final(asa) == *old(asa),
        old(asa).is_complete ==> {
            &&& r is Ok
            &&& final(asa).vector@ == old(asa).vector@.insert(
                insert_index(*old(asa), node.spec_precedence(), left_associative),
                node,
            )
            &&& final(asa).is_complete
            &&& final(asa).last_incomplete == old(asa).last_incomplete
            &&& final(asa).max_precedence == old(asa).max_precedence
            &&& final(asa).precedence_jumptable@.len() == old(asa).precedence_jumptable@.len()
            &&& final(asa).precedence_jumptable@[node.spec_precedence() as int] == Option::Some(
                insert_index(*old(asa), node.spec_precedence(), left_associative) as usize,
            )
            &&& forall|j: int|
                0 <= j < node.spec_precedence() as int ==> #[trigger] final(asa).precedence_jumptable@[j]
                    == old(asa).precedence_jumptable@[j]
            &&& forall|j: int|
                (node.spec_precedence() as int) < j
                    && j < final(asa).precedence_jumptable@.len()
                    ==> #[trigger] final(asa).precedence_jumptable@[j] == (if lut_found(
                    *old(asa),
                    node.spec_precedence(),
                    left_associative,
                ) {
                    bump(old(asa).precedence_jumptable@[j])
                } else {
                    old(asa).precedence_jumptable@[j]
                })
        },
{
    if !asa.is_complete {
        let blamed: Option<N> = match incomplete_error(asa) {
            Option::Some(n) => Option::Some(n.dup()),
            Option::None => Option::None,
        };
        return Result::Err(Error::UnexpectedExpectedNode { oper: blamed, found: node });
    }
    insert_lookuptable(node, left_associative, asa);
    Result::Ok(())
}

/// Parses a binary node and inserts it into the ASA according to its
/// associativity: the node adopts the nodes after its splice position as
/// its first input and leaves its second input open.
pub fn binary_node<N: Node>(node: N, left_associative: bool, asa: &mut VectorASA<N>) -> (r: Result<
    (),
    Error<N>,
>)
    requires
        old(asa).wf(),
        node.spec_precedence() <= old(asa).max_precedence,
    ensures
        final(asa).wf(),
        !old(asa).is_complete ==> r == Result::<(), Error<N>>::Err(
            Error::UnexpectedExpectedNode { oper: old(asa).incomplete_node(), found: node },
        ) && *final(asa) == *old(asa),
        old(asa).is_complete ==> {
            &&& r is Ok
            &&& final(asa).vector@ == old(asa).vector@.insert(
                insert_index(*old(asa), node.spec_precedence(), left_associative),
                node,
            )
            &&& !final(asa).is_complete
            &&& final(asa).last_incomplete == Option::Some(
                insert_index(*old(asa), node.spec_precedence(), left_associative) as usize,
            )
            &&& final(asa).max_precedence == old(asa).max_precedence
            &&& final(asa).precedence_jumptable@.len() == old(asa).precedence_jumptable@.len()
            &&& final(asa).precedence_jumptable@[node.spec_precedence() as int] == Option::Some(
                insert_index(*old(asa), node.spec_precedence(), left_associative) as usize,
            )
            &&& forall|j: int|
                0 <= j < node.spec_precedence() as int ==> #[trigger] final(asa).precedence_jumptable@[j]
                    == old(asa).precedence_jumptable@[j]
            &&& forall|j: int|
                (node.spec_precedence() as int) < j
                    && j < final(asa).precedence_jumptable@.len()
                    ==> #[trigger] final(asa).precedence_jumptable@[j] == (if lut_found(
                    *old(asa),
                    node.spec_precedence(),
                    left_associative,
                ) {
                    bump(old(asa).precedence_jumptable@[j])
                } else {
                    old(asa).precedence_jumptable@[j]
                })
        },
{
    if !asa.is_complete {
        let blamed: Option<N> = match incomplete_error(asa) {
            Option::Some(n) => Option::Some(n.dup()),
            Option::None => Option::None,
        };
        return Result::Err(Error::UnexpectedExpectedNode { oper: blamed, found: node });
    }
    let idx = insert_lookuptable(node, left_associative, asa);
    asa.is_complete = false;
    asa.last_incomplete = Option::Some(idx);
    Result::Ok(())
}

} // verus!
