use ketchup::oper::OperInfo;
use ketchup::parser::{Node, Parser};
use ketchup::{Precedence, Space, Span};

#[derive(Debug, Clone)]
enum MathOper {
    Num(f64),
    Add,
    Sub,
    Mul,
    Div,
    Neg,
    Pos,
    Group(Vec<Node<MathOper>>),
}

fn op(oper: MathOper, space: Space, precedence: Precedence, start: usize) -> OperInfo<MathOper> {
    OperInfo { oper, span: Span { start, end: start + 1 }, space, precedence }
}

fn num(v: f64, start: usize) -> OperInfo<MathOper> {
    op(MathOper::Num(v), Space::Zero, Precedence::MAX, start)
}

/// The downstream arithmetic walker: consumes the array in pre-order with
/// an explicit index cursor, taking one sub-walk per unary node and two
/// per binary node.
fn visit_oper(idx: usize, asa: &Vec<Node<MathOper>>) -> (usize, f64) {
    match &asa[idx].oper {
        MathOper::Num(x) => (idx, *x),
        MathOper::Group(sub) => (idx, visit_oper(0, sub).1),

        MathOper::Pos => visit_oper(idx + 1, asa),
        MathOper::Neg => {
            let (idx, x) = visit_oper(idx + 1, asa);
            (idx, -x)
        },

        MathOper::Add => {
            let (idx, x) = visit_oper(idx + 1, asa);
            let (idx, y) = visit_oper(idx + 1, asa);
            (idx, x + y)
        },
        MathOper::Sub => {
            let (idx, x) = visit_oper(idx + 1, asa);
            let (idx, y) = visit_oper(idx + 1, asa);
            (idx, x - y)
        },
        MathOper::Mul => {
            let (idx, x) = visit_oper(idx + 1, asa);
            let (idx, y) = visit_oper(idx + 1, asa);
            (idx, x * y)
        },
        MathOper::Div => {
            let (idx, x) = visit_oper(idx + 1, asa);
            let (idx, y) = visit_oper(idx + 1, asa);
            (idx, x / y)
        },
    }
}

/// Parses `1 + 2 * -3 / +(4 - 5)`: the parenthesised group is parsed by a
/// nested driver run and spliced in as a single zero-space operand node.
fn parse_example() -> Vec<Node<MathOper>> {
    let inner = Parser::<MathOper>::new(true)
        .parse::<(), ()>(vec![
            num(4.0, 15),
            op(MathOper::Sub, Space::Two, 0, 17),
            num(5.0, 19),
        ])
        .unwrap();

    let parser = Parser::<MathOper>::new(true);
    let opers = vec![
        num(1.0, 0),
        op(MathOper::Add, Space::Two, 0, 2),
        num(2.0, 4),
        op(MathOper::Mul, Space::Two, 1, 6),
        op(MathOper::Neg, Space::One, 2, 8),
        num(3.0, 9),
        op(MathOper::Div, Space::Two, 1, 11),
        op(MathOper::Pos, Space::One, 2, 13),
        op(MathOper::Group(inner), Space::Zero, Precedence::MAX, 14),
    ];
    parser.parse::<(), ()>(opers).unwrap()
}

#[test]
fn round_trip_matches_infix_evaluation() {
    let asa = parse_example();
    let (_, got) = visit_oper(0, &asa);
    let expected = 1.0 + 2.0 * -3.0 / (4.0 - 5.0);
    assert_eq!(got, expected);
    assert_eq!(got, 7.0);
}

#[test]
fn traversal_is_idempotent() {
    // the walker takes the array immutably, so re-reading the same
    // completed array yields the same scalar every time
    let asa = parse_example();
    let (_, first) = visit_oper(0, &asa);
    let (_, second) = visit_oper(0, &asa);
    let (_, third) = visit_oper(0, &asa);
    assert_eq!(first, second);
    assert_eq!(second, third);
}
