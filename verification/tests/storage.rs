use ketchup::asa::VectorASA;
use ketchup::error::Error;
use ketchup::node::{Node, NodeKind};
use ketchup::oper::{OperInfo, OperOption};
use ketchup::parse;
use ketchup::{Precedence, Space, Span};

#[derive(Debug, Clone, Copy, PartialEq, Eq)]
enum Tiny {
    Leaf(u8),
    Not,
    And,
}

impl Node for Tiny {
    const MAX_PRECEDENCE: Precedence = 1;

    fn spec_precedence(&self) -> Precedence {
        self.get_precedence()
    }

    fn spec_kind(&self) -> NodeKind {
        self.get_kind()
    }

    fn get_precedence(&self) -> Precedence {
        match self {
            Tiny::Leaf(_) => Precedence::MAX,
            Tiny::Not => 1,
            Tiny::And => 0,
        }
    }

    fn get_kind(&self) -> NodeKind {
        match self {
            Tiny::Leaf(_) => NodeKind::Operand,
            Tiny::Not => NodeKind::Unary,
            Tiny::And => NodeKind::Binary,
        }
    }

    fn dup(&self) -> Self {
        *self
    }
}

#[test]
fn fresh_asa_is_empty_and_incomplete() {
    let mut asa = VectorASA::<Tiny>::new(Tiny::MAX_PRECEDENCE);
    assert_eq!(asa.get_len(), 0);
    assert!(!*asa.is_complete());
    assert!(asa.last_incomplete().is_none());
    assert_eq!(asa.max_precedence(), 1);
    // one jump-table entry per precedence value, all empty
    assert_eq!(asa.precedence_jumptable().len(), 2);
    assert!(asa.precedence_jumptable().iter().all(|e| e.is_none()));
}

#[test]
fn push_and_read_back() {
    let mut asa = VectorASA::<Tiny>::new(Tiny::MAX_PRECEDENCE);
    asa.push(Tiny::Leaf(1));
    asa.push(Tiny::Leaf(2));
    asa.push_start(Tiny::And);
    asa.insert(2, Tiny::Not);
    assert_eq!(asa.get_len(), 4);
    assert_eq!(*asa.get_node(0), Tiny::And);
    assert_eq!(*asa.get_node(1), Tiny::Leaf(1));
    assert_eq!(*asa.get_node(2), Tiny::Not);
    assert_eq!(*asa.get_node(3), Tiny::Leaf(2));
}

#[test]
fn unexpected_node_error_carries_the_node() {
    let mut asa = VectorASA::<Tiny>::new(Tiny::MAX_PRECEDENCE);
    parse::operand(Tiny::Leaf(1), &mut asa).unwrap();
    let err = parse::operand(Tiny::Leaf(2), &mut asa).unwrap_err();
    assert!(matches!(err, Error::UnexpectedNode(Tiny::Leaf(2))));
    let err = parse::unary_left_align(Tiny::Not, &mut asa).unwrap_err();
    assert!(matches!(err, Error::UnexpectedNode(Tiny::Not)));
}

#[test]
fn unexpected_expected_node_error_names_both() {
    let mut asa = VectorASA::<Tiny>::new(Tiny::MAX_PRECEDENCE);
    parse::operand(Tiny::Leaf(1), &mut asa).unwrap();
    parse::binary_node(Tiny::And, true, &mut asa).unwrap();
    // a second binary operator while And still waits for its input
    let err = parse::binary_node(Tiny::And, true, &mut asa).unwrap_err();
    assert!(matches!(
        err,
        Error::UnexpectedExpectedNode { oper: Some(Tiny::And), found: Tiny::And }
    ));
}

#[test]
fn ensure_completed_accepts_a_complete_asa() {
    let mut asa = VectorASA::<Tiny>::new(Tiny::MAX_PRECEDENCE);
    parse::unary_left_align(Tiny::Not, &mut asa).unwrap();
    parse::operand(Tiny::Leaf(1), &mut asa).unwrap();
    parse::ensure_completed(&mut asa).unwrap();
}

#[test]
fn ensure_completed_rejects_an_empty_asa() {
    let mut asa = VectorASA::<Tiny>::new(Tiny::MAX_PRECEDENCE);
    let Err(Error::ExpectedNode(None)) = parse::ensure_completed(&mut asa) else {
        panic!("assert failed");
    };
}

#[test]
fn oper_option_constructors() {
    let info = OperInfo {
        oper: Tiny::Not,
        span: Span { start: 0, end: 1 },
        space: Space::One,
        precedence: 1,
    };
    let o = OperOption::no_space(info.clone());
    assert!(o.no_space.is_some() && o.single_space.is_none() && o.double_space.is_none());
    let o = OperOption::single_space(info.clone());
    assert!(o.no_space.is_none() && o.single_space.is_some() && o.double_space.is_none());
    let o = OperOption::double_space(info);
    assert!(o.no_space.is_none() && o.single_space.is_none() && o.double_space.is_some());
}
