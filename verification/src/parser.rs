//! The ketchup parser driver.
//!
//! The driver consumes a stream of already-classified operator
//! descriptions ([`OperInfo`]) and commits them to a flat, pre-order
//! abstract syntax array of [`Node`]s: each description either becomes a
//! child of the most recently placed node, or walks up the parent chain
//! and splices itself above the nodes it adopts.  Tokenisation and the
//! classification of tokens into operator descriptions (including the
//! recursion into parenthesised sub-expressions) are the caller's
//! collaborators and stay outside the driver.

use crate::error::KError;
use crate::oper::OperInfo;
use crate::{Precedence, Space, Span};
use vstd::prelude::*;

verus! {

/// A node committed to the abstract syntax array.
#[derive(Debug, Clone)]
pub struct Node<Oper> {
    /// The type of operation that the node is.
    pub oper: Oper,
    /// Information about the node.
    pub info: NodeInfo,
}

/// Information about a node in the abstract syntax array.
#[derive(Debug, Clone)]
pub struct NodeInfo {
    /// The location of the node's token in the parsed string.
    pub span: Span,
    /// The parent of the node in the ASA.
    pub parent: Option<usize>,
    /// The precedence of the node.
    pub precedence: Precedence,
    /// Whether there is space left for another input node.
    pub space: bool,
}

/// The discipline operator descriptions must follow: an operand (zero
/// spaces) carries the maximum precedence, and every space-taking operator
/// binds strictly less tightly than an operand.
pub open spec fn oper_ok<Oper>(info: OperInfo<Oper>) -> bool {
    (info.space is Zero) <==> (info.precedence == Precedence::MAX)
}

/// Every operator description of a stream follows the discipline.
pub open spec fn opers_ok<Oper>(opers: Seq<OperInfo<Oper>>) -> bool {
    forall|i: int| 0 <= i < opers.len() ==> oper_ok(#[trigger] opers[i])
}

/// The driver's invariant over the array and the pointer: the array is
/// non-empty, exactly the node at index 0 is parentless, parent links
/// always point to earlier indices, only the pointed node may still have
/// space for an input, and a closed pointed operator already owns the
/// nodes after it.
pub open spec fn asa_inv<Oper>(asa: Seq<Node<Oper>>, ptr: int) -> bool {
    &&& asa.len() >= 1
    &&& 0 <= ptr < asa.len()
    &&& asa[0].info.parent is None
    &&& forall|i: int| 1 <= i < asa.len() ==> (#[trigger] asa[i].info.parent) is Some
    &&& forall|i: int|
        0 <= i < asa.len() ==> (match (#[trigger] asa[i].info.parent) {
            Option::Some(p) => p < i,
            Option::None => true,
        })
    &&& forall|i: int| 0 <= i < asa.len() && (#[trigger] asa[i].info.space) ==> i == ptr
    &&& (!asa[ptr].info.space && asa[ptr].info.precedence < Precedence::MAX ==> ptr + 1
        < asa.len())
}

/// The node an operator description turns into.
pub open spec fn new_node<Oper>(info: OperInfo<Oper>, parent: Option<usize>, space: bool) -> Node<
    Oper,
> {
    Node {
        oper: info.oper,
        info: NodeInfo { span: info.span, parent, precedence: info.precedence, space },
    }
}

/// A node with its parent link replaced.
pub open spec fn reparent<Oper>(node: Node<Oper>, parent: Option<usize>) -> Node<Oper> {
    Node {
        oper: node.oper,
        info: NodeInfo {
            span: node.info.span,
            parent,
            precedence: node.info.precedence,
            space: node.info.space,
        },
    }
}

/// Whether the parent-chain walk stops below a candidate of precedence
/// `cp`: a strictly looser candidate always stops it, and an equally tight
/// one stops it when the parser is right-recursive (the new operator then
/// nests under its equal instead of adopting it).
pub open spec fn walk_stops(cp: Precedence, prec: Precedence, left_recursive: bool) -> bool {
    if left_recursive {
        cp < prec
    } else {
        cp <= prec
    }
}

/// The position an adopting operator splices in at, walking the parent
/// chain up from `child`: the first chain node whose parent stops the
/// walk, or `None` when the walk reaches the root.
pub open spec fn splice_pos<Oper>(
    asa: Seq<Node<Oper>>,
    child: int,
    prec: Precedence,
    left_recursive: bool,
) -> Option<int>
    decreases child,
{
    match asa[child].info.parent {
        Option::None => Option::None,
        Option::Some(p) => if !(0 <= p < child) {
            Option::None
        } else if walk_stops(asa[p as int].info.precedence, prec, left_recursive) {
            Option::Some(child)
        } else {
            splice_pos(asa, p as int, prec, left_recursive)
        },
    }
}

/// What placing the first operator description does: a double-spaced
/// operator cannot open a stream (its first input could never exist), and
/// anything else becomes the root-so-far.
pub open spec fn first_step<Oper, Token, Other>(info: OperInfo<Oper>) -> Result<
    (Seq<Node<Oper>>, int),
    KError<Token, Other>,
> {
    if info.space is Two {
        Result::Err(KError::DoubleSpaceConflict { span: info.span })
    } else {
        Result::Ok((seq![new_node(info, Option::None, !(info.space is Zero))], 0))
    }
}

/// What inserting one further operator description does to the array and
/// the pointer, or the error it raises.
pub open spec fn insert_step<Oper, Token, Other>(
    asa: Seq<Node<Oper>>,
    ptr: int,
    info: OperInfo<Oper>,
    left_recursive: bool,
) -> Result<(Seq<Node<Oper>>, int), KError<Token, Other>> {
    let pd = asa[ptr].info;
    if pd.space && info.space is Two {
        Result::Err(KError::DoubleSpaceConflict { span: info.span })
    } else if info.space is Zero || info.precedence > pd.precedence || (info.precedence
        == pd.precedence && left_recursive && pd.space) {
        // the new node becomes owned by the pointed node
        if !pd.space {
            Result::Err(KError::UnexpectedOper(info.span))
        } else {
            let cleared = asa.update(ptr, reparent_closed(asa[ptr]));
            Result::Ok(
                (
                    cleared.push(
                        new_node(info, Option::Some(ptr as usize), !(info.space is Zero)),
                    ),
                    asa.len() as int,
                ),
            )
        }
    } else if pd.space {
        // an equal-or-looser operator cannot adopt a node that still
        // expects an input
        Result::Err(KError::UnexpectedOper(info.span))
    } else if walk_stops(pd.precedence, info.precedence, left_recursive) {
        // the walk stops at the pointed node itself: the new node steals
        // the pointed node's own child subtree
        let d = ptr + 1;
        let tricked = asa.update(d, reparent(asa[d], Option::Some(d as usize)));
        Result::Ok(
            (
                tricked.insert(d, new_node(info, Option::Some(ptr as usize), info.space is Two)),
                d,
            ),
        )
    } else {
        match splice_pos(asa, ptr, info.precedence, left_recursive) {
            Option::Some(d) => {
                // splice between the stopping ancestor and its chain child
                let tricked = asa.update(d, reparent(asa[d], Option::Some(d as usize)));
                Result::Ok(
                    (
                        tricked.insert(d, new_node(info, asa[d].info.parent, info.space is Two)),
                        d,
                    ),
                )
            },
            Option::None => {
                // no ancestor binds looser: the new node becomes the root
                let tricked = asa.update(0, reparent(asa[0], Option::Some(0usize)));
                Result::Ok(
                    (tricked.insert(0, new_node(info, Option::None, info.space is Two)), 0),
                )
            },
        }
    }
}

/// A node with its space flag cleared: its open slot has been claimed.
pub open spec fn reparent_closed<Oper>(node: Node<Oper>) -> Node<Oper> {
    Node {
        oper: node.oper,
        info: NodeInfo {
            span: node.info.span,
            parent: node.info.parent,
            precedence: node.info.precedence,
            space: false,
        },
    }
}

/// Folds `insert_step` over the remaining operator descriptions.
pub open spec fn run_steps<Oper, Token, Other>(
    asa: Seq<Node<Oper>>,
    ptr: int,
    opers: Seq<OperInfo<Oper>>,
    i: int,
    left_recursive: bool,
) -> Result<(Seq<Node<Oper>>, int), KError<Token, Other>>
    decreases opers.len() - i,
{
    if i >= opers.len() {
        Result::Ok((asa, ptr))
    } else {
        match insert_step::<Oper, Token, Other>(asa, ptr, opers[i], left_recursive) {
            Result::Ok((a, p)) => run_steps(a, p, opers, i + 1, left_recursive),
            Result::Err(e) => Result::Err(e),
        }
    }
}

/// The end-of-stream check: a pointed node, or its parent, that still has
/// space for an input makes the whole parse fail with `ExpectedOper`.
pub open spec fn finish_step<Oper, Token, Other>(asa: Seq<Node<Oper>>, ptr: int) -> Result<
    Seq<Node<Oper>>,
    KError<Token, Other>,
> {
    let pd = asa[ptr].info;
    if pd.space {
        Result::Err(
            KError::ExpectedOper {
                span: Span { start: pd.span.end, end: pd.span.end },
                precedence: pd.precedence,
            },
        )
    } else {
        match pd.parent {
            Option::Some(p) => if asa[p as int].info.space {
                Result::Err(
                    KError::ExpectedOper {
                        span: Span {
                            start: asa[p as int].info.span.end,
                            end: asa[p as int].info.span.end,
                        },
                        precedence: asa[p as int].info.precedence,
                    },
                )
            } else {
                Result::Ok(asa)
            },
            Option::None => Result::Ok(asa),
        }
    }
}

/// What parsing a whole stream of operator descriptions returns.
pub open spec fn parse_result<Oper, Token, Other>(
    opers: Seq<OperInfo<Oper>>,
    left_recursive: bool,
) -> Result<Seq<Node<Oper>>, KError<Token, Other>> {
    if opers.len() == 0 {
        Result::Ok(Seq::empty())
    } else {
        match first_step::<Oper, Token, Other>(opers[0]) {
            Result::Err(e) => Result::Err(e),
            Result::Ok((a, p)) => match run_steps::<Oper, Token, Other>(
                a,
                p,
                opers,
                1,
                left_recursive,
            ) {
                Result::Err(e) => Result::Err(e),
                Result::Ok((a2, p2)) => finish_step(a2, p2),
            },
        }
    }
}

/// A finished, valid array: no node is left with space for an input, and
/// exactly the first node (the root of the pre-order encoding) is
/// parentless.
pub open spec fn complete_asa<Oper>(asa: Seq<Node<Oper>>) -> bool {
    &&& forall|i: int| 0 <= i < asa.len() ==> !(#[trigger] asa[i].info.space)
    &&& asa.len() > 0 ==> asa[0].info.parent is None
    &&& forall|i: int| 1 <= i < asa.len() ==> (#[trigger] asa[i].info.parent) is Some
}

/// The slot-state a stream of operator descriptions leaves behind: nothing
/// placed yet, an operator still waiting for its trailing operand, or one
/// fully applied expression.
pub enum StreamState {
    /// No description placed yet.
    Fresh,
    /// The most recent operator, of the given precedence, still waits for
    /// an operand.
    Waiting(Precedence),
    /// The descriptions so far form one fully applied expression.
    Applied,
}

/// How one operator description moves the slot-state, or `None` where the
/// description cannot stand at this point of a stream: an operand or a
/// prefix operator only where an operand is expected, a binary operator
/// only after a fully applied expression, and a prefix operator only
/// binding tighter than the operator it follows (equally tight is enough
/// when the parser is left-recursive).
pub open spec fn next_state<Oper>(
    st: StreamState,
    info: OperInfo<Oper>,
    left_recursive: bool,
) -> Option<StreamState> {
    match info.space {
        Space::Zero => match st {
            StreamState::Fresh => Option::Some(StreamState::Applied),
            StreamState::Waiting(_) => Option::Some(StreamState::Applied),
            StreamState::Applied => Option::None,
        },
        Space::One => match st {
            StreamState::Fresh => Option::Some(StreamState::Waiting(info.precedence)),
            StreamState::Waiting(p) => if p < info.precedence || (p == info.precedence
                && left_recursive) {
                Option::Some(StreamState::Waiting(info.precedence))
            } else {
                Option::None
            },
            StreamState::Applied => Option::None,
        },
        Space::Two => match st {
            StreamState::Applied => Option::Some(StreamState::Waiting(info.precedence)),
            _ => Option::None,
        },
    }
}

/// Whether the descriptions from index `i` on, starting in slot-state
/// `st`, walk the slot-states to one fully applied expression.
pub open spec fn accepts_from<Oper>(
    opers: Seq<OperInfo<Oper>>,
    i: int,
    st: StreamState,
    left_recursive: bool,
) -> bool
    decreases opers.len() - i,
{
    if i >= opers.len() {
        st is Applied
    } else {
        match next_state(st, opers[i], left_recursive) {
            Option::Some(st2) => accepts_from(opers, i + 1, st2, left_recursive),
            Option::None => false,
        }
    }
}

/// A well-formed stream: it follows the operator discipline and describes
/// exactly one fully applied expression.
pub open spec fn well_formed_stream<Oper>(
    opers: Seq<OperInfo<Oper>>,
    left_recursive: bool,
) -> bool {
    &&& opers.len() > 0
    &&& opers_ok(opers)
    &&& accepts_from(opers, 0, StreamState::Fresh, left_recursive)
}

/// How the slot-state shows in the driver's pointed node: an open pointed
/// node of the recorded precedence while waiting, a closed operand once
/// applied.
pub open spec fn state_matches<Oper>(asa: Seq<Node<Oper>>, ptr: int, st: StreamState) -> bool {
    match st {
        StreamState::Fresh => false,
        StreamState::Waiting(p) => asa[ptr].info.space && asa[ptr].info.precedence == p,
        StreamState::Applied => !asa[ptr].info.space && asa[ptr].info.precedence
            == Precedence::MAX,
    }
}

/// Splicing preserves the driver's invariant: inserting a node at `d`
/// (after redirecting the displaced node's parent link to `d`, which the
/// insertion shifts onto the new node) keeps exactly one parentless node,
/// keeps parent links pointing backwards, and leaves the new node as the
/// only one that may still have space for an input.
proof fn lemma_splice_inv<Oper>(a0: Seq<Node<Oper>>, ptr: int, d: int, newn: Node<Oper>)
    requires
        asa_inv(a0, ptr),
        !a0[ptr].info.space,
        0 <= d < a0.len(),
        match newn.info.parent {
            Option::Some(c) => 0 < d && c < d,
            Option::None => d == 0,
        },
    ensures
        asa_inv(a0.update(d, reparent(a0[d], Option::Some(d as usize))).insert(d, newn), d),
{
    let t = a0.update(d, reparent(a0[d], Option::Some(d as usize)));
    let s = t.insert(d, newn);
    assert(s.len() == a0.len() + 1);
    assert forall|i: int| 0 <= i < s.len() implies s[i] == (if i < d {
        a0[i]
    } else if i == d {
        newn
    } else if i == d + 1 {
        reparent(a0[d], Option::Some(d as usize))
    } else {
        a0[i - 1]
    }) by {
        if i < d {
            assert(s[i] == t[i]);
        } else if i > d {
            assert(s[i] == t[i - 1]);
        }
    }
    assert forall|j: int| 0 <= j < a0.len() implies !(#[trigger] a0[j].info.space) by {
        if a0[j].info.space {
            assert(j == ptr);
        }
    }
    assert(s[0].info.parent is None);
    assert forall|i: int| 1 <= i < s.len() implies (#[trigger] s[i].info.parent) is Some by {}
    assert forall|i: int|
        0 <= i < s.len() implies (match (#[trigger] s[i].info.parent) {
        Option::Some(p) => p < i,
        Option::None => true,
    }) by {}
    assert forall|i: int| 0 <= i < s.len() && (#[trigger] s[i].info.space) implies i == d by {}
}

/// Appending a child of the pointed node preserves the driver's
/// invariant: the pointed node's slot is claimed, and the new node at the
/// end becomes the only one that may still have space.  A closed new node
/// must be an operand (maximum precedence), so the invariant's claim about
/// closed operators owning their successors stays vacuous for it.
proof fn lemma_child_inv<Oper>(a0: Seq<Node<Oper>>, ptr: int, newn: Node<Oper>)
    requires
        asa_inv(a0, ptr),
        a0[ptr].info.space,
        newn.info.parent == Option::Some(ptr as usize),
        newn.info.space || newn.info.precedence == Precedence::MAX,
    ensures
        asa_inv(a0.update(ptr, reparent_closed(a0[ptr])).push(newn), a0.len() as int),
{
    let s = a0.update(ptr, reparent_closed(a0[ptr])).push(newn);
    assert(s.len() == a0.len() + 1);
    assert forall|i: int| 0 <= i < s.len() implies s[i] == (if i == ptr {
        reparent_closed(a0[ptr])
    } else if i == a0.len() {
        newn
    } else {
        a0[i]
    }) by {}
    assert forall|i: int| 0 <= i < s.len() && (#[trigger] s[i].info.space) implies i == a0.len()
        as int by {
        if i < a0.len() && i != ptr && a0[i].info.space {
            assert(i == ptr);
        }
    }
}

/// The position the parent-chain walk finds is always a sound splice
/// point: a strictly positive index whose node's parent exists, lies
/// below it, and stops the walk.
proof fn lemma_splice_pos_props<Oper>(
    asa: Seq<Node<Oper>>,
    ptr: int,
    child: int,
    prec: Precedence,
    left_recursive: bool,
)
    requires
        asa_inv(asa, ptr),
        0 <= child < asa.len(),
    ensures
        match splice_pos(asa, child, prec, left_recursive) {
            Option::Some(d) => {
                &&& 0 < d <= child
                &&& d < asa.len()
                &&& asa[d].info.parent is Some
                &&& match asa[d].info.parent {
                    Option::Some(c) => c < d && walk_stops(
                        asa[c as int].info.precedence,
                        prec,
                        left_recursive,
                    ),
                    Option::None => false,
                }
            },
            Option::None => true,
        },
    decreases child,
{
    match asa[child].info.parent {
        Option::None => {},
        Option::Some(p) => {
            if 0 <= (p as int) < child {
                if !walk_stops(asa[p as int].info.precedence, prec, left_recursive) {
                    lemma_splice_pos_props(asa, ptr, p as int, prec, left_recursive);
                }
            }
        },
    }
}

/// Running the driver from a state that matches the stream's slot-state
/// succeeds on every well-formed remainder, and ends in a complete array.
proof fn lemma_run_succeeds<Oper, Token, Other>(
    asa: Seq<Node<Oper>>,
    ptr: int,
    opers: Seq<OperInfo<Oper>>,
    i: int,
    st: StreamState,
    left_recursive: bool,
)
    requires
        asa_inv(asa, ptr),
        opers_ok(opers),
        0 <= i <= opers.len(),
        accepts_from(opers, i, st, left_recursive),
        state_matches(asa, ptr, st),
        !(st is Fresh),
    ensures
        ({
            let r = run_steps::<Oper, Token, Other>(asa, ptr, opers, i, left_recursive);
            &&& r is Ok
            &&& match r {
                Result::Ok((a2, p2)) => finish_step::<Oper, Token, Other>(a2, p2)
                    == Result::<Seq<Node<Oper>>, KError<Token, Other>>::Ok(a2) && complete_asa(a2),
                Result::Err(_) => false,
            }
        }),
    decreases opers.len() - i,
{
    if i >= opers.len() {
        // the stream is exhausted in the applied state: the pointed node
        // is closed, and with it every node, so the finish checks pass
        assert(st is Applied);
        assert forall|j: int| 0 <= j < asa.len() implies !(#[trigger] asa[j].info.space) by {
            if asa[j].info.space {
                assert(j == ptr);
            }
        }
    } else {
        let info = opers[i];
        assert(oper_ok(info));
        let st2 = next_state(st, info, left_recursive).unwrap();
        let pd = asa[ptr].info;
        match info.space {
            Space::Zero => {
                // an operand fills the waiting slot and closes the array
                assert(st is Waiting || st is Fresh || st is Applied);
                assert(st is Waiting);
                let newn = new_node(info, Option::Some(ptr as usize), false);
                lemma_child_inv(asa, ptr, newn);
                let a2 = asa.update(ptr, reparent_closed(asa[ptr])).push(newn);
                lemma_run_succeeds::<Oper, Token, Other>(
                    a2,
                    asa.len() as int,
                    opers,
                    i + 1,
                    st2,
                    left_recursive,
                );
            },
            Space::One => {
                // a prefix operator binds tighter than the waiting one and
                // nests under it, itself waiting next
                assert(st is Waiting);
                let newn = new_node(info, Option::Some(ptr as usize), true);
                lemma_child_inv(asa, ptr, newn);
                let a2 = asa.update(ptr, reparent_closed(asa[ptr])).push(newn);
                lemma_run_succeeds::<Oper, Token, Other>(
                    a2,
                    asa.len() as int,
                    opers,
                    i + 1,
                    st2,
                    left_recursive,
                );
            },
            Space::Two => {
                // a binary operator adopts the applied expression by
                // walking the parent chain, which always finds a sound
                // splice point or reaches the root
                assert(st is Applied);
                assert(info.precedence < Precedence::MAX);
                assert(!walk_stops(pd.precedence, info.precedence, left_recursive));
                lemma_splice_pos_props(asa, ptr, ptr, info.precedence, left_recursive);
                match splice_pos(asa, ptr, info.precedence, left_recursive) {
                    Option::Some(d) => {
                        let newn = new_node(info, asa[d].info.parent, true);
                        lemma_splice_inv(asa, ptr, d, newn);
                        let a2 = asa.update(
                            d,
                            reparent(asa[d], Option::Some(d as usize)),
                        ).insert(d, newn);
                        lemma_run_succeeds::<Oper, Token, Other>(
                            a2,
                            d,
                            opers,
                            i + 1,
                            st2,
                            left_recursive,
                        );
                    },
                    Option::None => {
                        let newn = new_node(info, Option::None, true);
                        lemma_splice_inv(asa, ptr, 0, newn);
                        let a2 = asa.update(
                            0,
                            reparent(asa[0], Option::Some(0usize)),
                        ).insert(0, newn);
                        lemma_run_succeeds::<Oper, Token, Other>(
                            a2,
                            0,
                            opers,
                            i + 1,
                            st2,
                            left_recursive,
                        );
                    },
                }
            },
        }
    }
}

/// Every well-formed stream of operator descriptions parses successfully,
/// and the finished array has no node with an open slot and exactly one
/// parentless node: the root of the pre-order encoding.
pub proof fn lemma_well_formed_parses<Oper, Token, Other>(
    opers: Seq<OperInfo<Oper>>,
    left_recursive: bool,
)
    requires
        well_formed_stream(opers, left_recursive),
    ensures
        parse_result::<Oper, Token, Other>(opers, left_recursive) is Ok,
        match parse_result::<Oper, Token, Other>(opers, left_recursive) {
            Result::Ok(v) => complete_asa(v),
            Result::Err(_) => true,
        },
{
    let info = opers[0];
    assert(oper_ok(info));
    let st1 = next_state(StreamState::Fresh, info, left_recursive).unwrap();
    let a1 = seq![new_node(info, Option::None, !(info.space is Zero))];
    assert(asa_inv(a1, 0));
    lemma_run_succeeds::<Oper, Token, Other>(a1, 0, opers, 1, st1, left_recursive);
}

/// The ketchup parser driver itself.
#[derive(Debug)]
pub struct Parser<Oper> {
    /// Whether operators of equal precedence associate left-recursively
    /// (the later operator adopts the earlier one) or right-recursively
    /// (the later operator nests under the earlier one).
    pub left_recursive: bool,
    /// The internal ASA.
    pub asa: Vec<Node<Oper>>,
}

impl<Oper> Parser<Oper> {
    /// Initialises a new parser with the given tie-break rule for
    /// operators of equal precedence.
    pub fn new(left_recursive: bool) -> (r: Self)
        ensures
            r.asa@.len() == 0,
            r.left_recursive == left_recursive,
    {
        Self { left_recursive, asa: Vec::new() }
    }

    /// Parses the first operator description of the stream and returns the
    /// pointer.
    fn parse_first_tok<Token, Other>(&mut self, oper_info: OperInfo<Oper>) -> (r: Result<
        usize,
        KError<Token, Other>,
    >)
        requires
            old(self).asa@.len() == 0,
            oper_ok(oper_info),
        ensures
            final(self).left_recursive == old(self).left_recursive,
            match (r, first_step::<Oper, Token, Other>(oper_info)) {
                (Result::Ok(p), Result::Ok((s, sp))) => final(self).asa@ == s && p as int == sp
                    && asa_inv(s, sp),
                (Result::Err(e), Result::Err(e2)) => e == e2 && final(self).asa@ == old(self).asa@,
                _ => false,
            },
    {
        // a double-spaced operator cannot stand at the start of the ASA:
        // its first input could never be fulfilled
        if oper_info.space == Space::Two {
            return Result::Err(KError::DoubleSpaceConflict { span: oper_info.span });
        }
        let space = oper_info.space != Space::Zero;
        self.asa.push(
            Node {
                oper: oper_info.oper,
                info: NodeInfo {
                    span: oper_info.span,
                    parent: Option::None,
                    precedence: oper_info.precedence,
                    space,
                },
            },
        );
        Result::Ok(0)
    }

    /// Safely inserts an operator description into the ASA while following
    /// ketchup's rules; returns the new pointer.
    fn safe_insert<Token, Other>(&mut self, pointer: usize, oper_info: OperInfo<Oper>) -> (r:
        Result<usize, KError<Token, Other>>)
        requires
            asa_inv(old(self).asa@, pointer as int),
            oper_ok(oper_info),
        ensures
            final(self).left_recursive == old(self).left_recursive,
            match (r, insert_step::<Oper, Token, Other>(
                old(self).asa@,
                pointer as int,
                oper_info,
                old(self).left_recursive,
            )) {
                (Result::Ok(p), Result::Ok((s, sp))) => final(self).asa@ == s && p as int == sp
                    && asa_inv(s, sp),
                (Result::Err(e), Result::Err(e2)) => e == e2 && final(self).asa@ == old(self).asa@,
                _ => false,
            },
    {
        let ghost ninfo = oper_info;
        let pointed_space = self.asa[pointer].info.space;
        let pointed_prec = self.asa[pointer].info.precedence;

        // make sure that there aren't any double spaces next to each other
        if pointed_space && oper_info.space == Space::Two {
            return Result::Err(KError::DoubleSpaceConflict { span: oper_info.span });
        }
        let is_operand = oper_info.space == Space::Zero;
        if is_operand || oper_info.precedence > pointed_prec || (oper_info.precedence
            == pointed_prec && self.left_recursive && pointed_space) {
            // become owned by the pointed node

            // check if there is enough space for another node input
            if !pointed_space {
                return Result::Err(KError::UnexpectedOper(oper_info.span));
            }
            let e = &mut self.asa[pointer];
            e.info.space = false;
            self.asa.push(
                Node {
                    oper: oper_info.oper,
                    info: NodeInfo {
                        span: oper_info.span,
                        parent: Option::Some(pointer),
                        precedence: oper_info.precedence,
                        space: !is_operand,
                    },
                },
            );
            let p = self.asa.len() - 1;
            Result::Ok(p)
        } else {
            // take ownership of the pointed node's subtree

            // a node that still expects an input cannot be adopted
            if pointed_space {
                return Result::Err(KError::UnexpectedOper(oper_info.span));
            }
            let stops_here = if self.left_recursive {
                pointed_prec < oper_info.precedence
            } else {
                pointed_prec <= oper_info.precedence
            };
            let two = oper_info.space == Space::Two;
            if stops_here {
                // the walk stops at the pointed node itself: steal the
                // pointed node's own child subtree
                let len = self.asa.len();
                proof {
                    assert(oper_info.precedence < Precedence::MAX);
                    assert((pointer as int) + 1 < len as int);
                }
                let d = pointer + 1;
                let e = &mut self.asa[d];
                e.info.parent = Option::Some(d);
                self.asa.insert(
                    d,
                    Node {
                        oper: oper_info.oper,
                        info: NodeInfo {
                            span: oper_info.span,
                            parent: Option::Some(pointer),
                            precedence: oper_info.precedence,
                            space: two,
                        },
                    },
                );
                proof {
                    lemma_splice_inv(
                        old(self).asa@,
                        pointer as int,
                        d as int,
                        new_node(ninfo, Option::Some(pointer), two),
                    );
                }
                Result::Ok(d)
            } else {
                // walk up the parent chain to find where to splice
                let ghost a0 = self.asa@;
                let mut child: usize = pointer;
                loop
                    invariant
                        self.asa@ == a0,
                        asa_inv(a0, pointer as int),
                        !a0[pointer as int].info.space,
                        oper_ok(oper_info),
                        ninfo == oper_info,
                        !(ninfo.space is Zero),
                        !(ninfo.precedence > a0[pointer as int].info.precedence),
                        !walk_stops(
                            a0[pointer as int].info.precedence,
                            ninfo.precedence,
                            self.left_recursive,
                        ),
                        child <= pointer,
                        0 <= child < a0.len(),
                        splice_pos(a0, pointer as int, oper_info.precedence, self.left_recursive)
                            == splice_pos(
                            a0,
                            child as int,
                            oper_info.precedence,
                            self.left_recursive,
                        ),
                        two == (oper_info.space is Two),
                        old(self).asa@ == a0,
                        old(self).left_recursive == self.left_recursive,
                        (pointer as int) < a0.len(),
                    decreases child,
                {
                    let parent_link = self.asa[child].info.parent;
                    match parent_link {
                        Option::None => {
                            proof {
                                assert(child == 0);
                            }
                            // the walk reached the root: the new node
                            // becomes the root of the whole array
                            let e = &mut self.asa[0];
                            e.info.parent = Option::Some(0);
                            self.asa.insert(
                                0,
                                Node {
                                    oper: oper_info.oper,
                                    info: NodeInfo {
                                        span: oper_info.span,
                                        parent: Option::None,
                                        precedence: oper_info.precedence,
                                        space: two,
                                    },
                                },
                            );
                            proof {
                                assert(splice_pos(
                                    a0,
                                    child as int,
                                    ninfo.precedence,
                                    self.left_recursive,
                                ) == Option::None::<int>);
                                lemma_splice_inv(
                                    a0,
                                    pointer as int,
                                    0,
                                    new_node(ninfo, Option::None, two),
                                );
                            }
                            return Result::Ok(0);
                        },
                        Option::Some(par) => {
                            proof {
                                assert((par as int) < child as int);
                            }
                            let stops = if self.left_recursive {
                                self.asa[par].info.precedence < oper_info.precedence
                            } else {
                                self.asa[par].info.precedence <= oper_info.precedence
                            };
                            if stops {
                                // splice between the stopping ancestor and
                                // its chain child, adopting the child
                                let e = &mut self.asa[child];
                                e.info.parent = Option::Some(child);
                                self.asa.insert(
                                    child,
                                    Node {
                                        oper: oper_info.oper,
                                        info: NodeInfo {
                                            span: oper_info.span,
                                            parent: Option::Some(par),
                                            precedence: oper_info.precedence,
                                            space: two,
                                        },
                                    },
                                );
                                proof {
                                    assert(splice_pos(
                                        a0,
                                        child as int,
                                        ninfo.precedence,
                                        self.left_recursive,
                                    ) == Option::Some(child as int));
                                    lemma_splice_inv(
                                        a0,
                                        pointer as int,
                                        child as int,
                                        new_node(ninfo, Option::Some(par), two),
                                    );
                                }
                                return Result::Ok(child);
                            }
                            child = par;
                        },
                    }
                }
            }
        }
    }

    /// Parses a whole stream of operator descriptions and returns the
    /// finished abstract syntax array.
    ///
    /// On success the array is complete: no node is left with space for an
    /// input and exactly one node, the first, is parentless.
    #[verifier::loop_isolation(false)]
    pub fn parse<Token, Other>(self, opers: Vec<OperInfo<Oper>>) -> (r: Result<
        Vec<Node<Oper>>,
        KError<Token, Other>,
    >)
        requires
            self.asa@.len() == 0,
            opers_ok(opers@),
        ensures
            match (r, parse_result::<Oper, Token, Other>(opers@, self.left_recursive)) {
                (Result::Ok(v), Result::Ok(s)) => v@ == s,
                (Result::Err(e), Result::Err(e2)) => e == e2,
                _ => false,
            },
            (r matches Result::Ok(v) ==> complete_asa(v@)),
    {
        let ghost all = opers@;
        let ghost lr = self.left_recursive;
        let mut rest = opers;
        let mut this = self;
        if rest.len() == 0 {
            return Result::Ok(this.asa);
        }
        let first = rest.remove(0);
        proof {
            assert(first == all[0]);
        }
        let mut pointer: usize = match this.parse_first_tok::<Token, Other>(first) {
            Result::Ok(p) => p,
            Result::Err(e) => {
                return Result::Err(e);
            },
        };
        let ghost a1 = this.asa@;
        let ghost p1 = pointer as int;
        let ghost mut i: int = 1;
        while rest.len() > 0
            invariant
                1 <= i <= all.len(),
                rest@ == all.subrange(i, all.len() as int),
                opers_ok(all),
                asa_inv(this.asa@, pointer as int),
                this.left_recursive == lr,
                run_steps::<Oper, Token, Other>(this.asa@, pointer as int, all, i, lr)
                    == run_steps::<Oper, Token, Other>(a1, p1, all, 1, lr),
            decreases rest@.len(),
        {
            let info = rest.remove(0);
            proof {
                assert(info == all[i]);
                assert(oper_ok(info));
            }
            match this.safe_insert::<Token, Other>(pointer, info) {
                Result::Ok(p) => {
                    pointer = p;
                    proof {
                        i = i + 1;
                    }
                },
                Result::Err(e) => {
                    return Result::Err(e);
                },
            }
        }
        proof {
            assert(i == all.len());
        }

        // if the pointed node has a missing input then raise an error
        if this.asa[pointer].info.space {
            let sp_end = this.asa[pointer].info.span.end;
            let prec = this.asa[pointer].info.precedence;
            return Result::Err(
                KError::ExpectedOper { span: Span { start: sp_end, end: sp_end }, precedence: prec },
            );
        }
        // if the pointed node's parent has a missing input then raise an
        // error as well
        let parent_link = this.asa[pointer].info.parent;
        match parent_link {
            Option::Some(par) => {
                proof {
                    assert((par as int) < pointer as int);
                }
                if this.asa[par].info.space {
                    let sp_end = this.asa[par].info.span.end;
                    let prec = this.asa[par].info.precedence;
                    return Result::Err(
                        KError::ExpectedOper {
                            span: Span { start: sp_end, end: sp_end },
                            precedence: prec,
                        },
                    );
                }
            },
            Option::None => {},
        }
        // the completed, valid ASA
        Result::Ok(this.asa)
    }
}

} // verus!
