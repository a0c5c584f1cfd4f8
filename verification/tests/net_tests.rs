use picoml::error::{AgentKind, Error, ReductionError, ReductionFault};
use picoml::types::{Primitive, PrimitiveType};
use picoml::vm::expr::{
    apply_operator, wire, Args, Cons, Dup, Erase, Expr, Label, Literal, Net, Op, Redex, Var,
};

fn var(name: &str) -> Expr {
    Expr::Var(name.to_string())
}

fn u8_lit(v: u8) -> Expr {
    Expr::Literal(Literal::U8(v))
}

fn i32_lit(v: i32) -> Expr {
    Expr::Literal(Literal::I32(v))
}

fn dup(a: Expr, b: Expr) -> Expr {
    Expr::Dup(Box::new(a), Box::new(b))
}

fn op(name: &str) -> Expr {
    Expr::Op(name.to_string())
}

fn redex(lhs: Expr, rhs: Expr) -> Redex {
    Redex { lhs, rhs }
}

fn fault(index: usize, lhs: AgentKind, rhs: AgentKind, fault: ReductionFault) -> Error {
    Error::Reduction(ReductionError { index, lhs, rhs, fault })
}

fn duplication_net() -> Net {
    Net::new(
        Expr::Cons(vec![var("a"), var("b")]),
        vec![redex(dup(var("a"), var("b")), Expr::Cons(vec![u8_lit(1), u8_lit(2)]))],
    )
}

fn two_pairs() -> Expr {
    Expr::Cons(vec![
        Expr::Cons(vec![u8_lit(1), u8_lit(2)]),
        Expr::Cons(vec![u8_lit(1), u8_lit(2)]),
    ])
}

fn run_with(mut net: Net, pick: impl Fn(usize, usize) -> usize) -> Net {
    let mut round = 0;
    while !net.is_normal() {
        let index = pick(round, net.pending());
        assert_eq!(net.step_at(index), Ok(true));
        round += 1;
        assert!(round < 1000);
    }
    net
}

#[test]
fn duplication_reaches_one_normal_form_in_every_order() {
    let front = run_with(duplication_net(), |_, _| 0);
    let back = run_with(duplication_net(), |_, n| n - 1);
    let middle = run_with(duplication_net(), |_, n| n / 2);
    let mixed = run_with(duplication_net(), |round, n| (round * 7 + 3) % n);
    for net in [&front, &back, &middle, &mixed] {
        assert!(net.is_normal());
        assert_eq!(net.root(), &two_pairs());
    }
}

#[test]
fn duplication_by_reduce_reaches_the_same_normal_form() {
    let mut net = duplication_net();
    let steps = net.reduce(1000).unwrap();
    assert!(steps > 0 && steps < 1000);
    assert!(net.is_normal());
    assert_eq!(net.into_root(), two_pairs());
}

#[test]
fn commutation_wires_fresh_agents_locally() {
    let mut net = duplication_net();
    assert_eq!(net.step(), Ok(true));
    assert_eq!(
        net.redexes(),
        &vec![
            redex(dup(var("$0"), var("$1")), u8_lit(1)),
            redex(dup(var("$2"), var("$3")), u8_lit(2)),
            redex(Expr::Cons(vec![var("$0"), var("$2")]), var("a")),
            redex(Expr::Cons(vec![var("$1"), var("$3")]), var("b")),
        ]
    );
    assert_eq!(net.root(), &Expr::Cons(vec![var("a"), var("b")]));
}

#[test]
fn commutation_works_with_the_constructor_on_the_left() {
    let mut net = Net::new(
        Expr::Erase,
        vec![redex(Expr::Cons(vec![var("longer")]), dup(var("p"), var("q")))],
    );
    assert_eq!(net.step(), Ok(true));
    assert_eq!(
        net.redexes(),
        &vec![
            redex(dup(var("$$$$$$0"), var("$$$$$$1")), var("longer")),
            redex(Expr::Cons(vec![var("$$$$$$0")]), var("p")),
            redex(Expr::Cons(vec![var("$$$$$$1")]), var("q")),
        ]
    );
}

#[test]
fn later_commutations_use_later_wires() {
    let mut net = Net::new(
        Expr::Erase,
        vec![
            redex(dup(Expr::Erase, Expr::Erase), Expr::Cons(vec![Expr::Erase])),
            redex(dup(Expr::Erase, Expr::Erase), Expr::Cons(vec![Expr::Erase])),
        ],
    );
    assert_eq!(net.step(), Ok(true));
    assert_eq!(net.step(), Ok(true));
    assert_eq!(
        net.redexes(),
        &vec![
            redex(dup(var("0"), var("1")), Expr::Erase),
            redex(Expr::Cons(vec![var("0")]), Expr::Erase),
            redex(Expr::Cons(vec![var("1")]), Expr::Erase),
            redex(dup(var("2"), var("3")), Expr::Erase),
            redex(Expr::Cons(vec![var("2")]), Expr::Erase),
            redex(Expr::Cons(vec![var("3")]), Expr::Erase),
        ]
    );
    assert_eq!(net.reduce(100).map(|_| ()), Ok(()));
    assert!(net.is_normal());
}

#[test]
fn operator_on_literals_reduces_in_one_step() {
    let mut net = Net::new(
        Expr::Erase,
        vec![redex(op("add"), Expr::Args(vec![i32_lit(2), i32_lit(3)]))],
    );
    assert_eq!(net.step(), Ok(true));
    assert!(net.is_normal());
    assert_eq!(net.root(), &i32_lit(5));
}

#[test]
fn operator_fires_with_the_operands_on_the_left() {
    let mut net = Net::new(
        Expr::Erase,
        vec![redex(Expr::Args(vec![i32_lit(2), i32_lit(3)]), op("mul"))],
    );
    assert_eq!(net.reduce(10), Ok(1));
    assert_eq!(net.root(), &i32_lit(6));
}

#[test]
fn erasure_leaves_one_eraser_for_each_port() {
    let mut net = Net::new(
        dup(var("x"), var("y")),
        vec![redex(Expr::Erase, Expr::Cons(vec![var("x"), var("y")]))],
    );
    assert_eq!(net.step(), Ok(true));
    assert_eq!(
        net.redexes(),
        &vec![redex(Expr::Erase, var("x")), redex(Expr::Erase, var("y"))]
    );
    assert!(net.redexes().iter().all(|r| r.lhs.kind() != AgentKind::Cons
        && r.rhs.kind() != AgentKind::Cons));
    assert_eq!(net.reduce(10), Ok(2));
    assert!(net.is_normal());
    assert_eq!(net.root(), &dup(Expr::Erase, Expr::Erase));
}

#[test]
fn erasure_from_the_right_and_of_agents_without_ports() {
    let mut net = Net::new(
        Expr::Erase,
        vec![
            redex(dup(u8_lit(1), Expr::Label("l".to_string())), Expr::Erase),
            redex(Expr::Erase, Expr::Erase),
            redex(Expr::Erase, op("add")),
            redex(Expr::Args(vec![u8_lit(3)]), Expr::Erase),
        ],
    );
    assert_eq!(net.step(), Ok(true));
    assert_eq!(net.pending(), 5);
    assert_eq!(net.redexes()[3], redex(Expr::Erase, u8_lit(1)));
    assert_eq!(net.redexes()[4], redex(Expr::Erase, Expr::Label("l".to_string())));
    assert_eq!(net.reduce(100), Ok(6));
    assert!(net.is_normal());
    assert_eq!(net.root(), &Expr::Erase);
}

#[test]
fn a_redex_without_a_rule_is_an_error_and_changes_nothing() {
    let build = || {
        Net::new(
            var("r"),
            vec![
                redex(op("add"), Expr::Literal(Literal::Bool(true))),
                redex(Expr::Erase, Expr::Cons(vec![var("r")])),
                redex(op("add"), Expr::Args(vec![i32_lit(1), i32_lit(1)])),
            ],
        )
    };
    let mut net = build();
    let expected = fault(0, AgentKind::Op, AgentKind::Literal, ReductionFault::NoRule);
    assert_eq!(net.step(), Err(expected));
    assert_eq!(net, build());
    assert_eq!(net.reduce(10), Err(expected));
    assert_eq!(net, build());
    // The other redexes can still be rewritten on their own.
    assert_eq!(net.step_at(1), Ok(true));
    assert_eq!(net.redexes()[0], redex(op("add"), Expr::Literal(Literal::Bool(true))));
}

#[test]
fn an_error_names_the_place_of_the_redex() {
    let mut net = Net::new(
        Expr::Erase,
        vec![
            redex(Expr::Erase, Expr::Erase),
            redex(u8_lit(1), Expr::Cons(vec![])),
            redex(Expr::Label("a".to_string()), Expr::Label("b".to_string())),
        ],
    );
    assert_eq!(
        net.step_at(1),
        Err(fault(1, AgentKind::Literal, AgentKind::Cons, ReductionFault::NoRule))
    );
    assert_eq!(
        net.step_at(2),
        Err(fault(2, AgentKind::Label, AgentKind::Label, ReductionFault::NoRule))
    );
    assert_eq!(net.pending(), 3);
}

#[test]
fn reduce_stops_at_the_redex_that_fails() {
    let mut net = Net::new(
        Expr::Erase,
        vec![
            redex(Expr::Erase, Expr::Erase),
            redex(Expr::Cons(vec![u8_lit(1)]), Expr::Cons(vec![])),
            redex(Expr::Erase, Expr::Erase),
        ],
    );
    assert_eq!(
        net.reduce(10),
        Err(fault(0, AgentKind::Cons, AgentKind::Cons, ReductionFault::ArityMismatch))
    );
    assert_eq!(
        net.redexes(),
        &vec![
            redex(Expr::Cons(vec![u8_lit(1)]), Expr::Cons(vec![])),
            redex(Expr::Erase, Expr::Erase),
        ]
    );
}

#[test]
fn annihilation_wires_the_ports_pairwise() {
    let mut net = Net::new(
        Expr::Erase,
        vec![redex(
            Expr::Cons(vec![var("a"), u8_lit(1), Expr::Erase]),
            Expr::Cons(vec![u8_lit(2), var("b"), var("c")]),
        )],
    );
    assert_eq!(net.step(), Ok(true));
    assert_eq!(
        net.redexes(),
        &vec![
            redex(var("a"), u8_lit(2)),
            redex(u8_lit(1), var("b")),
            redex(Expr::Erase, var("c")),
        ]
    );
    let mut net = Net::new(
        Expr::Erase,
        vec![redex(dup(var("a"), var("b")), dup(var("c"), var("d")))],
    );
    assert_eq!(net.step(), Ok(true));
    assert_eq!(net.redexes(), &vec![redex(var("a"), var("c")), redex(var("b"), var("d"))]);
}

#[test]
fn annihilation_of_empty_constructors_leaves_nothing() {
    let mut net = Net::new(u8_lit(9), vec![redex(Expr::Cons(vec![]), Expr::Cons(vec![]))]);
    assert_eq!(net.reduce(5), Ok(1));
    assert!(net.is_normal());
    assert_eq!(net.root(), &u8_lit(9));
}

#[test]
fn a_wire_is_bound_where_its_other_end_stands() {
    let mut net = Net::new(
        Expr::Cons(vec![var("x"), var("y")]),
        vec![
            redex(var("x"), u8_lit(4)),
            redex(Expr::Cons(vec![var("x")]), var("y")),
        ],
    );
    assert_eq!(net.step(), Ok(true));
    assert_eq!(net.root(), &Expr::Cons(vec![u8_lit(4), var("y")]));
    assert_eq!(net.redexes(), &vec![redex(Expr::Cons(vec![u8_lit(4)]), var("y"))]);
    assert_eq!(net.step(), Ok(true));
    assert_eq!(
        net.root(),
        &Expr::Cons(vec![u8_lit(4), Expr::Cons(vec![u8_lit(4)])])
    );
    assert!(net.is_normal());
}

#[test]
fn two_wire_ends_bind_the_one_that_is_known() {
    let mut net = Net::new(Expr::Cons(vec![var("x")]), vec![redex(var("x"), var("y"))]);
    assert_eq!(net.step(), Ok(true));
    assert_eq!(net.root(), &Expr::Cons(vec![var("y")]));

    let mut net = Net::new(Expr::Cons(vec![var("y")]), vec![redex(var("x"), var("y"))]);
    assert_eq!(net.step(), Ok(true));
    assert_eq!(net.root(), &Expr::Cons(vec![var("x")]));
}

#[test]
fn a_wire_without_another_end_is_an_error() {
    let mut net = Net::new(Expr::Erase, vec![redex(var("x"), Expr::Erase)]);
    assert_eq!(
        net.step(),
        Err(fault(0, AgentKind::Var, AgentKind::Erase, ReductionFault::UnboundVariable))
    );
    let mut net = Net::new(Expr::Erase, vec![redex(Expr::Cons(vec![var("x")]), var("x"))]);
    assert_eq!(
        net.step(),
        Err(fault(0, AgentKind::Cons, AgentKind::Var, ReductionFault::UnboundVariable))
    );
    assert_eq!(net.pending(), 1);
}

#[test]
fn an_operator_waits_for_operands_that_are_wire_ends() {
    let mut net = Net::new(
        Expr::Erase,
        vec![
            redex(op("add"), Expr::Args(vec![var("x"), i32_lit(3)])),
            redex(var("x"), i32_lit(2)),
        ],
    );
    assert_eq!(net.step(), Ok(true));
    assert_eq!(
        net.redexes(),
        &vec![
            redex(var("x"), i32_lit(2)),
            redex(op("add"), Expr::Args(vec![var("x"), i32_lit(3)])),
        ]
    );
    assert_eq!(net.reduce(10), Ok(2));
    assert!(net.is_normal());
    assert_eq!(net.root(), &i32_lit(5));
}

#[test]
fn an_operand_that_can_never_be_a_literal_is_an_error() {
    let mut net = Net::new(
        Expr::Erase,
        vec![redex(op("add"), Expr::Args(vec![i32_lit(1), Expr::Erase]))],
    );
    assert_eq!(
        net.step(),
        Err(fault(0, AgentKind::Op, AgentKind::Args, ReductionFault::MalformedOperand))
    );
    let mut net = Net::new(
        Expr::Erase,
        vec![redex(Expr::Args(vec![var("x"), Expr::Cons(vec![])]), op("add"))],
    );
    assert_eq!(
        net.step(),
        Err(fault(0, AgentKind::Args, AgentKind::Op, ReductionFault::MalformedOperand))
    );
}

#[test]
fn reduce_respects_its_limit() {
    let stuck = || {
        Net::new(Expr::Erase, vec![redex(op("add"), Expr::Args(vec![var("x"), i32_lit(3)]))])
    };
    let mut net = stuck();
    assert_eq!(net.reduce(0), Ok(0));
    assert_eq!(net, stuck());
    assert_eq!(net.reduce(7), Ok(7));
    assert_eq!(net.pending(), 1);
    assert!(!net.is_normal());
}

#[test]
fn a_step_on_nothing_does_nothing() {
    let mut net = Net::new(u8_lit(1), vec![]);
    assert!(net.is_normal());
    assert_eq!(net.step(), Ok(false));
    assert_eq!(net.step_at(3), Ok(false));
    assert_eq!(net.reduce(10), Ok(0));
    assert_eq!(net.root(), &u8_lit(1));

    let mut net = Net::new(u8_lit(1), vec![redex(Expr::Erase, Expr::Erase)]);
    assert_eq!(net.step_at(1), Ok(false));
    assert_eq!(net.pending(), 1);
}

#[test]
fn a_duplicator_copies_leaves() {
    let text = || Expr::Literal(Literal::String("s".to_string()));
    let mut net = Net::new(
        Expr::Cons(vec![var("p"), var("q")]),
        vec![redex(dup(var("p"), var("q")), text())],
    );
    assert_eq!(net.step(), Ok(true));
    assert_eq!(net.redexes(), &vec![redex(text(), var("p")), redex(text(), var("q"))]);
    assert_eq!(net.reduce(10), Ok(2));
    assert_eq!(net.root(), &Expr::Cons(vec![text(), text()]));

    let label = || Expr::Label("tag".to_string());
    let mut net = Net::new(
        Expr::Cons(vec![var("p"), var("q")]),
        vec![redex(label(), dup(var("p"), var("q")))],
    );
    assert_eq!(net.reduce(10), Ok(3));
    assert_eq!(net.root(), &Expr::Cons(vec![label(), label()]));
}

fn apply(name: &str, operands: Vec<Expr>) -> Result<Literal, ReductionFault> {
    apply_operator(&name.to_string(), &operands)
}

#[test]
fn arithmetic_is_exact_or_overflows() {
    assert_eq!(apply("add", vec![i32_lit(2), i32_lit(3)]), Ok(Literal::I32(5)));
    assert_eq!(apply("sub", vec![i32_lit(2), i32_lit(3)]), Ok(Literal::I32(-1)));
    assert_eq!(apply("mul", vec![i32_lit(-4), i32_lit(3)]), Ok(Literal::I32(-12)));
    assert_eq!(apply("add", vec![u8_lit(200), u8_lit(55)]), Ok(Literal::U8(255)));
    assert_eq!(apply("add", vec![u8_lit(200), u8_lit(56)]), Err(ReductionFault::Overflow));
    assert_eq!(apply("sub", vec![u8_lit(0), u8_lit(1)]), Err(ReductionFault::Overflow));
    assert_eq!(apply("mul", vec![u8_lit(16), u8_lit(16)]), Err(ReductionFault::Overflow));
    let i8_lit = |v: i8| Expr::Literal(Literal::I8(v));
    assert_eq!(apply("add", vec![i8_lit(127), i8_lit(1)]), Err(ReductionFault::Overflow));
    assert_eq!(apply("sub", vec![i8_lit(-128), i8_lit(1)]), Err(ReductionFault::Overflow));
    assert_eq!(apply("mul", vec![i8_lit(-128), i8_lit(-1)]), Err(ReductionFault::Overflow));
    assert_eq!(apply("mul", vec![i8_lit(-64), i8_lit(2)]), Ok(Literal::I8(-128)));
    let u64_lit = |v: u64| Expr::Literal(Literal::U64(v));
    assert_eq!(
        apply("add", vec![u64_lit(u64::MAX - 1), u64_lit(1)]),
        Ok(Literal::U64(u64::MAX))
    );
    assert_eq!(apply("add", vec![u64_lit(u64::MAX), u64_lit(1)]), Err(ReductionFault::Overflow));
    assert_eq!(
        apply("mul", vec![u64_lit(u64::MAX), u64_lit(u64::MAX)]),
        Err(ReductionFault::Overflow)
    );
    assert_eq!(
        apply("mul", vec![u64_lit(1 << 32), u64_lit((1 << 32) - 1)]),
        Ok(Literal::U64(((1u64 << 32) - 1) << 32))
    );
    let i64_lit = |v: i64| Expr::Literal(Literal::I64(v));
    assert_eq!(
        apply("mul", vec![i64_lit(i64::MIN), i64_lit(i64::MIN)]),
        Err(ReductionFault::Overflow)
    );
    assert_eq!(
        apply("sub", vec![i64_lit(i64::MIN), i64_lit(i64::MAX)]),
        Err(ReductionFault::Overflow)
    );
    assert_eq!(apply("sub", vec![i64_lit(-1), i64_lit(i64::MAX)]), Ok(Literal::I64(i64::MIN)));
}

#[test]
fn comparison_and_logic() {
    let t = || Expr::Literal(Literal::Bool(true));
    let f = || Expr::Literal(Literal::Bool(false));
    assert_eq!(apply("eq", vec![i32_lit(2), i32_lit(2)]), Ok(Literal::Bool(true)));
    assert_eq!(apply("eq", vec![i32_lit(2), i32_lit(3)]), Ok(Literal::Bool(false)));
    assert_eq!(apply("eq", vec![t(), f()]), Ok(Literal::Bool(false)));
    assert_eq!(apply("eq", vec![f(), f()]), Ok(Literal::Bool(true)));
    assert_eq!(apply("and", vec![t(), f()]), Ok(Literal::Bool(false)));
    assert_eq!(apply("and", vec![t(), t()]), Ok(Literal::Bool(true)));
    assert_eq!(apply("or", vec![t(), f()]), Ok(Literal::Bool(true)));
    assert_eq!(apply("or", vec![f(), f()]), Ok(Literal::Bool(false)));
    assert_eq!(apply("not", vec![t()]), Ok(Literal::Bool(false)));
    assert_eq!(apply("not", vec![f()]), Ok(Literal::Bool(true)));
}

#[test]
fn operands_of_the_wrong_number_or_kind_are_bad() {
    let t = || Expr::Literal(Literal::Bool(true));
    let bad = Err(ReductionFault::BadOperands);
    assert_eq!(apply("add", vec![i32_lit(2)]), bad);
    assert_eq!(apply("add", vec![i32_lit(2), i32_lit(3), i32_lit(4)]), bad);
    assert_eq!(apply("add", vec![i32_lit(2), u8_lit(3)]), bad);
    assert_eq!(apply("add", vec![t(), t()]), bad);
    assert_eq!(apply("add", vec![i32_lit(2), Expr::Literal(Literal::String("3".to_string()))]), bad);
    assert_eq!(apply("add", vec![i32_lit(2), Expr::Erase]), bad);
    assert_eq!(apply("eq", vec![i32_lit(2), t()]), bad);
    assert_eq!(apply("eq", vec![i32_lit(2), u8_lit(2)]), bad);
    assert_eq!(apply("eq", vec![t()]), bad);
    assert_eq!(apply("and", vec![t(), i32_lit(1)]), bad);
    assert_eq!(apply("or", vec![t()]), bad);
    assert_eq!(apply("not", vec![t(), t()]), bad);
    assert_eq!(apply("not", vec![i32_lit(0)]), bad);
    assert_eq!(apply("not", vec![]), bad);
}

#[test]
fn an_unknown_operator_is_an_error() {
    assert_eq!(apply("div", vec![i32_lit(2), i32_lit(1)]), Err(ReductionFault::UnknownOperator));
    assert_eq!(apply("", vec![]), Err(ReductionFault::UnknownOperator));
    assert_eq!(apply("ADD", vec![i32_lit(2), i32_lit(1)]), Err(ReductionFault::UnknownOperator));
    let mut net = Net::new(
        Expr::Erase,
        vec![redex(op("div"), Expr::Args(vec![i32_lit(2), i32_lit(1)]))],
    );
    assert_eq!(
        net.step(),
        Err(fault(0, AgentKind::Op, AgentKind::Args, ReductionFault::UnknownOperator))
    );
    let mut net = Net::new(
        Expr::Erase,
        vec![redex(op("add"), Expr::Args(vec![u8_lit(255), u8_lit(1)]))],
    );
    assert_eq!(
        net.step(),
        Err(fault(0, AgentKind::Op, AgentKind::Args, ReductionFault::Overflow))
    );
}

#[test]
fn integers_and_literals() {
    assert_eq!(u8_lit(7).as_integer(), Some((PrimitiveType::U8, 7)));
    assert_eq!(Expr::Literal(Literal::I64(-7)).as_integer(), Some((PrimitiveType::I64, -7)));
    assert_eq!(Expr::Literal(Literal::Bool(true)).as_integer(), None);
    assert_eq!(Expr::Erase.as_integer(), None);
    assert_eq!(Expr::Literal(Literal::Bool(true)).as_boolean(), Some(true));
    assert_eq!(u8_lit(1).as_boolean(), None);
    assert_eq!(Literal::from_integer(PrimitiveType::U8, 255), Some(Literal::U8(255)));
    assert_eq!(Literal::from_integer(PrimitiveType::U8, 256), None);
    assert_eq!(Literal::from_integer(PrimitiveType::U8, -1), None);
    assert_eq!(Literal::from_integer(PrimitiveType::I16, -32768), Some(Literal::I16(-32768)));
    assert_eq!(Literal::from_integer(PrimitiveType::I16, 32768), None);
    assert_eq!(
        Literal::from_integer(PrimitiveType::U64, u64::MAX as i128),
        Some(Literal::U64(u64::MAX))
    );
    assert_eq!(Literal::from_integer(PrimitiveType::U64, u64::MAX as i128 + 1), None);
    assert_eq!(Literal::from_integer(PrimitiveType::Bool, 1), None);
    assert_eq!(Literal::from_integer(PrimitiveType::F32, 1), None);
}

#[test]
fn terms_copy_search_and_substitute() {
    let e = Expr::Cons(vec![
        var("x"),
        dup(var("y"), Expr::Args(vec![var("x"), op("x"), Expr::Label("x".to_string())])),
    ]);
    assert_eq!(e.duplicate(), e);
    assert!(e.mentions(&"x".to_string()));
    assert!(e.mentions(&"y".to_string()));
    assert!(!e.mentions(&"z".to_string()));
    assert_eq!(e.longest_name(), 1);
    assert_eq!(var("héllo").longest_name(), 5);
    assert_eq!(Expr::Erase.longest_name(), 0);
    assert_eq!(
        e.substitute(&"x".to_string(), &u8_lit(1)),
        Expr::Cons(vec![
            u8_lit(1),
            dup(var("y"), Expr::Args(vec![u8_lit(1), op("x"), Expr::Label("x".to_string())])),
        ])
    );
    assert_eq!(e.substitute(&"z".to_string(), &u8_lit(1)), e);
    assert_eq!(e.kind(), AgentKind::Cons);
    assert_eq!(var("x").kind(), AgentKind::Var);
    assert_eq!(op("x").kind(), AgentKind::Op);
}

#[test]
fn wire_names() {
    assert_eq!(wire(0, 0), "0");
    assert_eq!(wire(1, 9), "$9");
    assert_eq!(wire(2, 10), "$$10");
    assert_eq!(wire(1, 1234567890), "$1234567890");
    assert_eq!(wire(0, u64::MAX), "18446744073709551615");
}

#[test]
fn agents_become_terms() {
    assert_eq!(Erase.into_expr(), Expr::Erase);
    assert_eq!(Var::<picoml::vm::expr::LocalContext>("x".to_string()).into_expr(), var("x"));
    assert_eq!(
        Label::<picoml::vm::expr::LocalContext>("l".to_string()).into_expr(),
        Expr::Label("l".to_string())
    );
    assert_eq!(Op::<picoml::vm::expr::LocalContext>("add".to_string()).into_expr(), op("add"));
    assert_eq!(
        Cons::<picoml::vm::expr::LocalContext>(vec![u8_lit(1)]).into_expr(),
        Expr::Cons(vec![u8_lit(1)])
    );
    assert_eq!(
        Args::<picoml::vm::expr::LocalContext>(vec![u8_lit(1)]).into_expr(),
        Expr::Args(vec![u8_lit(1)])
    );
    assert_eq!(
        Dup::<picoml::vm::expr::LocalContext>(Box::new(Expr::Erase), Box::new(u8_lit(2))).into_expr(),
        dup(Expr::Erase, u8_lit(2))
    );
}

#[test]
fn redexes_that_share_a_wire() {
    let a = redex(var("x"), Expr::Cons(vec![var("y"), u8_lit(1)]));
    let b = redex(dup(var("z"), var("y")), Expr::Erase);
    let c = redex(op("x"), Expr::Label("y".to_string()));
    let d = redex(Expr::Args(vec![Expr::Cons(vec![var("x")])]), Expr::Erase);
    assert!(a.shares_wire(&b));
    assert!(b.shares_wire(&a));
    assert!(!a.shares_wire(&c));
    assert!(!c.shares_wire(&a));
    assert!(a.shares_wire(&d));
    assert!(!b.shares_wire(&d));
    assert!(a.shares_wire(&a));
    assert!(!c.shares_wire(&c));
}

#[test]
fn independent_redexes_leave_each_other_alone() {
    let build = || {
        Net::new(
            Expr::Cons(vec![var("x"), var("p")]),
            vec![
                redex(var("x"), u8_lit(4)),
                redex(Expr::Cons(vec![var("x")]), var("y")),
                redex(var("p"), u8_lit(5)),
                redex(var("q"), Expr::Cons(vec![var("q"), var("y")])),
            ],
        )
    };
    let net = build();
    assert!(!net.independent(0, 1));
    assert!(net.independent(0, 2));
    assert!(net.independent(0, 3));
    assert!(!net.independent(1, 3));
    assert!(net.independent(2, 3));
    assert!(!net.independent(2, 2));
    assert!(!net.independent(0, 4));
    assert!(!net.independent(9, 0));

    // Rewriting redex 0 leaves the redexes that share no wire with it as they were.
    let mut stepped = build();
    assert_eq!(stepped.step_at(0), Ok(true));
    assert_eq!(stepped.redexes()[1], build().redexes()[2]);
    assert_eq!(stepped.redexes()[2], build().redexes()[3]);
    assert_eq!(stepped.redexes()[0], redex(Expr::Cons(vec![u8_lit(4)]), var("y")));

    // Two independent redexes give the same net in either order.
    let mut one = build();
    assert_eq!(one.step_at(0), Ok(true));
    assert_eq!(one.step_at(1), Ok(true));
    let mut other = build();
    assert_eq!(other.step_at(2), Ok(true));
    assert_eq!(other.step_at(0), Ok(true));
    assert_eq!(one, other);
}

#[test]
fn a_new_net_has_introduced_no_wire() {
    let net = Net::new(var("abc"), vec![redex(var("de"), var("abc"))]);
    assert_eq!(net.wires(), 0);
    assert_eq!(net.prefix(), 3);
    assert_eq!(net.pending(), 1);
    let net = Net::new(Expr::Erase, vec![]);
    assert_eq!(net.prefix(), 0);
}

#[test]
fn a_scalar_becomes_a_literal() {
    use_from_primitive();
}

fn use_from_primitive() {
    assert_eq!(Literal::from_primitive(Primitive::U8(3)), Some(Literal::U8(3)));
    assert_eq!(Literal::from_primitive(Primitive::Bool(true)), Some(Literal::Bool(true)));
    assert_eq!(Literal::from_primitive(Primitive::I64(-3)), Some(Literal::I64(-3)));
    assert_eq!(Literal::from_primitive(Primitive::F32(3)), None);
    assert_eq!(Literal::from_primitive(Primitive::F64(3)), None);
}

#[test]
fn a_net_that_has_used_up_its_wires_cannot_commute() {
    let build = |wires: u64| {
        Net::resume(
            Expr::Erase,
            vec![redex(dup(Expr::Erase, Expr::Erase), Expr::Cons(vec![Expr::Erase, Expr::Erase]))],
            wires,
        )
    };
    let mut net = build(u64::MAX - 3);
    assert_eq!(
        net.step(),
        Err(fault(0, AgentKind::Dup, AgentKind::Cons, ReductionFault::WiresExhausted))
    );
    assert_eq!(net, build(u64::MAX - 3));
    let mut net = build(u64::MAX - 4);
    assert_eq!(net.step(), Ok(true));
    assert_eq!(net.wires(), u64::MAX);
    assert_eq!(net.redexes()[0], redex(dup(var("18446744073709551611"), var("18446744073709551612")), Expr::Erase));
    assert_eq!(net.redexes()[1], redex(dup(var("18446744073709551613"), var("18446744073709551614")), Expr::Erase));
    // An empty constructor needs no wire.
    let mut net = Net::resume(
        Expr::Erase,
        vec![redex(Expr::Cons(vec![]), dup(Expr::Erase, Expr::Erase))],
        u64::MAX,
    );
    assert_eq!(net.step(), Ok(true));
    assert_eq!(net.pending(), 2);
}

#[test]
fn a_resumed_net_keeps_clear_of_the_names_it_is_given() {
    let mut net = Net::resume(
        var("$0"),
        vec![redex(dup(var("$0"), var("$1")), Expr::Cons(vec![var("$2")]))],
        3,
    );
    assert_eq!(net.prefix(), 2);
    assert_eq!(net.wires(), 3);
    assert_eq!(net.step(), Ok(true));
    assert_eq!(net.redexes()[0], redex(dup(var("$$3"), var("$$4")), var("$2")));
    assert_eq!(net.wires(), 5);
}

#[test]
fn bad_operands_stop_the_net() {
    let mut net = Net::new(
        Expr::Erase,
        vec![redex(op("add"), Expr::Args(vec![i32_lit(1), u8_lit(1)]))],
    );
    assert_eq!(
        net.step(),
        Err(fault(0, AgentKind::Op, AgentKind::Args, ReductionFault::BadOperands))
    );
    let mut net = Net::new(Expr::Erase, vec![redex(op("not"), Expr::Args(vec![]))]);
    assert_eq!(
        net.reduce(3),
        Err(fault(0, AgentKind::Op, AgentKind::Args, ReductionFault::BadOperands))
    );
}
