//! The net and its reduction: the rules for rewriting a redex, stated on
//! mathematical values, and the engine that carries them out.

use vstd::prelude::*;

use crate::error::{Error, ReductionError, ReductionFault};
use crate::graph::{
    schema_of, GraphModel, GraphSerialize, IntoVisitor, ModelVisitor, Schema, Tree, Visitor,
};
use crate::lists::reversed;
use crate::vm::traverse::{net_graph, walk_into_net, walk_model_net, walk_net};
use crate::vm::wires::{
    lemma_new_net_well_named, lemma_run_keeps_names, lemma_step_keeps_names, lemma_wire_into_list,
    pair_mentions, share_a_wire, well_named, wire_into,
};
use crate::vm::expr::{
    apply_op, apply_operator, kind_of, larger, lemma_view_args, lemma_view_cons, longest, occurs,
    subst, terms, wire, wire_name, Expr, Literal, Term,
};

verus! {

/// Two terms whose principal ports are wired together: a rewrite that is
/// still to be made. The pair has no order.
#[derive(Debug, PartialEq, Eq)]
pub struct Redex {
    pub lhs: Expr,
    pub rhs: Expr,
}

impl View for Redex {
    type V = (Term, Term);

    open spec fn view(&self) -> (Term, Term) {
        (self.lhs@, self.rhs@)
    }
}

/// The views of a list of redexes.
pub open spec fn pairs(redexes: Seq<Redex>) -> Seq<(Term, Term)> {
    Seq::new(redexes.len(), |i: int| redexes[i]@)
}

/// What a net is, as a mathematical value: the root term, the worklist in
/// order, the number of wires the net has introduced, and the number of
/// dollar signs that start the names of those wires.
pub struct NetModel {
    pub root: Term,
    pub redexes: Seq<(Term, Term)>,
    pub wires: nat,
    pub prefix: nat,
}

/// What rewriting one redex asks of the net.
pub enum Rewrite {
    /// Put these redexes at the end of the worklist, having introduced this
    /// many wires.
    Spawn(Seq<(Term, Term)>, nat),
    /// Put the term in place of every end of the wire with this name.
    Bind(Seq<char>, Term),
    /// Make the term the root of the net. This is what becomes of the
    /// literal that an operator gives: the redex has no auxiliary port left
    /// to carry it, so it goes to the free port of the net.
    Yield(Term),
    /// Put the redex back at the end of the worklist.
    Defer,
    /// Stop: the redex cannot be rewritten.
    Fault(ReductionFault),
}

/// The terms at the auxiliary ports of the agent at the head of a term.
pub open spec fn ports(t: Term) -> Seq<Term> {
    match t {
        Term::Cons(items) => items,
        Term::Args(items) => items,
        Term::Dup(a, b) => seq![*a, *b],
        _ => Seq::empty(),
    }
}

/// Whether a wire end named `name` stands in the redex at `j`.
pub open spec fn occurs_at(redexes: Seq<(Term, Term)>, j: int, name: Seq<char>) -> bool {
    occurs(redexes[j].0, name) || occurs(redexes[j].1, name)
}

/// Whether a wire end named `name` stands in the root or in a redex other
/// than the one at `index`.
pub open spec fn bound_elsewhere(net: NetModel, index: int, name: Seq<char>) -> bool {
    occurs(net.root, name) || exists|j: int|
        0 <= j < net.redexes.len() && j != index && #[trigger] occurs_at(net.redexes, j, name)
}

/// One eraser for each term, wired to it.
pub open spec fn erasers(targets: Seq<Term>) -> Seq<(Term, Term)> {
    Seq::new(targets.len(), |i: int| (Term::Erase, targets[i]))
}

/// The terms of two lists of one length, wired pairwise.
pub open spec fn wired(lefts: Seq<Term>, rights: Seq<Term>) -> Seq<(Term, Term)> {
    Seq::new(lefts.len(), |i: int| (lefts[i], rights[i]))
}

/// The ends of `n` fresh wires: every second wire from `first` on.
pub open spec fn wire_ends(prefix: nat, first: nat, n: nat) -> Seq<Term> {
    Seq::new(n, |i: int| Term::Var(wire_name(prefix, (first + 2 * i) as nat)))
}

/// What a duplicator with the ports `d1` and `d2` and a constructor with
/// the elements `items` become: one duplicator for each element, wired to
/// it, and two constructors, wired to `d1` and `d2`; fresh wires join the
/// duplicators to the constructors.
pub open spec fn commuted(d1: Term, d2: Term, items: Seq<Term>, prefix: nat, wires: nat) -> Seq<
    (Term, Term),
> {
    let n = items.len();
    let lefts = wire_ends(prefix, wires, n);
    let rights = wire_ends(prefix, wires + 1, n);
    Seq::new(n, |i: int| (Term::Dup(Box::new(lefts[i]), Box::new(rights[i])), items[i])) + seq![
        (Term::Cons(lefts), d1),
        (Term::Cons(rights), d2),
    ]
}

/// Whether every operand is a literal or a wire end.
pub open spec fn operands_in_order(items: Seq<Term>) -> bool {
    forall|i: int| 0 <= i < items.len() ==> (#[trigger] items[i]) is Literal || items[i] is Var
}

/// Whether every operand is a literal.
pub open spec fn operands_ready(items: Seq<Term>) -> bool {
    forall|i: int| 0 <= i < items.len() ==> (#[trigger] items[i]) is Literal
}

/// What an operator and its operands become: a fault where an operand is
/// neither a literal nor a wire end; the same redex again, later, where an
/// operand is still a wire end; else what the operator gives.
pub open spec fn operated(name: Seq<char>, items: Seq<Term>) -> Rewrite {
    if !operands_in_order(items) {
        Rewrite::Fault(ReductionFault::MalformedOperand)
    } else if !operands_ready(items) {
        Rewrite::Defer
    } else {
        match apply_op(name, items) {
            Ok(l) => Rewrite::Yield(Term::Literal(l)),
            Err(f) => Rewrite::Fault(f),
        }
    }
}

/// Whether a term is a leaf that a duplicator copies: a literal or a label.
pub open spec fn is_leaf(t: Term) -> bool {
    t is Literal || t is Label
}

/// What the redex of `a` and `b` becomes, where neither is a wire end.
pub open spec fn interact(a: Term, b: Term, prefix: nat, wires: nat) -> Rewrite {
    if a is Erase {
        Rewrite::Spawn(erasers(ports(b)), 0)
    } else if b is Erase {
        Rewrite::Spawn(erasers(ports(a)), 0)
    } else if (a is Cons && b is Cons) || (a is Dup && b is Dup) {
        if ports(a).len() == ports(b).len() {
            Rewrite::Spawn(wired(ports(a), ports(b)), 0)
        } else {
            Rewrite::Fault(ReductionFault::ArityMismatch)
        }
    } else if a is Dup && b is Cons {
        if wires + 2 * ports(b).len() <= u64::MAX {
            Rewrite::Spawn(
                commuted(ports(a)[0], ports(a)[1], ports(b), prefix, wires),
                2 * ports(b).len(),
            )
        } else {
            Rewrite::Fault(ReductionFault::WiresExhausted)
        }
    } else if a is Cons && b is Dup {
        if wires + 2 * ports(a).len() <= u64::MAX {
            Rewrite::Spawn(
                commuted(ports(b)[0], ports(b)[1], ports(a), prefix, wires),
                2 * ports(a).len(),
            )
        } else {
            Rewrite::Fault(ReductionFault::WiresExhausted)
        }
    } else if a is Dup && is_leaf(b) {
        Rewrite::Spawn(seq![(b, ports(a)[0]), (b, ports(a)[1])], 0)
    } else if is_leaf(a) && b is Dup {
        Rewrite::Spawn(seq![(a, ports(b)[0]), (a, ports(b)[1])], 0)
    } else if a is Op && b is Args {
        operated(a->Op_0, ports(b))
    } else if a is Args && b is Op {
        operated(b->Op_0, ports(a))
    } else {
        Rewrite::Fault(ReductionFault::NoRule)
    }
}

/// What the redex at `index` becomes.
///
/// A wire end is bound first: the term on the other side takes the place of
/// the wire's other ends, which must stand somewhere else in the net. Then
/// come erasure, annihilation, commutation, the copying of a leaf, and the
/// application of an operator. Every other pair has no rule.
pub open spec fn rewrite_at(net: NetModel, index: int) -> Rewrite {
    let a = net.redexes[index].0;
    let b = net.redexes[index].1;
    if a is Var && bound_elsewhere(net, index, a->Var_0) {
        Rewrite::Bind(a->Var_0, b)
    } else if b is Var && bound_elsewhere(net, index, b->Var_0) {
        Rewrite::Bind(b->Var_0, a)
    } else if a is Var || b is Var {
        Rewrite::Fault(ReductionFault::UnboundVariable)
    } else {
        interact(a, b, net.prefix, net.wires)
    }
}

/// Each redex with `by` in place of every wire end named `name`.
pub open spec fn subst_pairs(redexes: Seq<(Term, Term)>, name: Seq<char>, by: Term) -> Seq<
    (Term, Term),
> {
    Seq::new(redexes.len(), |i: int| (subst(redexes[i].0, name, by), subst(redexes[i].1, name, by)))
}

/// The net after the redex at `index` has been rewritten, or the error that
/// names the redex where it cannot be.
pub open spec fn step_at(net: NetModel, index: int) -> Result<NetModel, ReductionError> {
    let rest = net.redexes.remove(index);
    match rewrite_at(net, index) {
        Rewrite::Spawn(fresh, used) => Ok(
            NetModel { redexes: rest + fresh, wires: net.wires + used, ..net },
        ),
        Rewrite::Bind(name, by) => Ok(
            NetModel {
                root: subst(net.root, name, by),
                redexes: subst_pairs(rest, name, by),
                ..net
            },
        ),
        Rewrite::Yield(t) => Ok(NetModel { root: t, redexes: rest, ..net }),
        Rewrite::Defer => Ok(NetModel { redexes: rest.push(net.redexes[index]), ..net }),
        Rewrite::Fault(fault) => Err(
            ReductionError {
                index: index as usize,
                lhs: kind_of(net.redexes[index].0),
                rhs: kind_of(net.redexes[index].1),
                fault,
            },
        ),
    }
}

/// What the engine has decided to do with a redex, before it takes the
/// redex out of the worklist.
enum Plan {
    BindLeft,
    BindRight,
    EraseLeft,
    EraseRight,
    Annihilate,
    CommuteLeft,
    CommuteRight,
    CopyLeft,
    CopyRight,
    Yield(Literal),
    Defer,
    Fault(ReductionFault),
}

impl Plan {
    /// Whether the plan is what the rules ask for the redex of `a` and `b`.
    spec fn carries_out(&self, rewrite: Rewrite, a: Term, b: Term, prefix: nat, wires: nat) -> bool {
        match self {
            Plan::BindLeft => a is Var && rewrite == Rewrite::Bind(a->Var_0, b),
            Plan::BindRight => b is Var && rewrite == Rewrite::Bind(b->Var_0, a),
            Plan::EraseLeft => rewrite == Rewrite::Spawn(erasers(ports(b)), 0),
            Plan::EraseRight => rewrite == Rewrite::Spawn(erasers(ports(a)), 0),
            Plan::Annihilate => ports(a).len() == ports(b).len() && rewrite == Rewrite::Spawn(
                wired(ports(a), ports(b)),
                0,
            ),
            Plan::CommuteLeft => a is Dup && wires + 2 * ports(b).len() <= u64::MAX && rewrite
                == Rewrite::Spawn(
                commuted(ports(a)[0], ports(a)[1], ports(b), prefix, wires),
                2 * ports(b).len(),
            ),
            Plan::CommuteRight => b is Dup && wires + 2 * ports(a).len() <= u64::MAX && rewrite
                == Rewrite::Spawn(
                commuted(ports(b)[0], ports(b)[1], ports(a), prefix, wires),
                2 * ports(a).len(),
            ),
            Plan::CopyLeft => a is Dup && is_leaf(b) && rewrite == Rewrite::Spawn(
                seq![(b, ports(a)[0]), (b, ports(a)[1])],
                0,
            ),
            Plan::CopyRight => b is Dup && is_leaf(a) && rewrite == Rewrite::Spawn(
                seq![(a, ports(b)[0]), (a, ports(b)[1])],
                0,
            ),
            Plan::Yield(l) => rewrite == Rewrite::Yield(Term::Literal(l@)),
            Plan::Defer => rewrite == Rewrite::Defer,
            Plan::Fault(f) => rewrite == Rewrite::Fault(*f),
        }
    }
}

/// The number of auxiliary ports of the agent at the head of a term.
fn port_count(e: &Expr) -> (n: usize)
    ensures
        n == ports(e@).len(),
{
    match e {
        Expr::Cons(items) => {
            proof {
                lemma_view_cons(*items);
            }
            items.len()
        },
        Expr::Args(items) => {
            proof {
                lemma_view_args(*items);
            }
            items.len()
        },
        Expr::Dup(_, _) => 2,
        _ => 0,
    }
}

/// What to do with an operator and its operands.
fn plan_operator(name: &String, items: &Vec<Expr>) -> (p: Plan)
    ensures
        match p {
            Plan::Yield(l) => operated(name@, terms(items@)) == Rewrite::Yield(Term::Literal(l@)),
            Plan::Defer => operated(name@, terms(items@)) == Rewrite::Defer,
            Plan::Fault(f) => operated(name@, terms(items@)) == Rewrite::Fault(f),
            _ => false,
        },
{
    let ghost ops = terms(items@);
    let mut ready = true;
    let mut i: usize = 0;
    while i < items.len()
        invariant
            i <= items.len(),
            ops == terms(items@),
            forall|k: int| 0 <= k < i ==> (#[trigger] ops[k]) is Literal || ops[k] is Var,
            ready <==> forall|k: int| 0 <= k < i ==> (#[trigger] ops[k]) is Literal,
        decreases items.len() - i,
    {
        match &items[i] {
            Expr::Literal(_) => {},
            Expr::Var(_) => {
                assert(!(ops[i as int] is Literal));
                ready = false;
            },
            _ => {
                assert(!(ops[i as int] is Literal || ops[i as int] is Var));
                return Plan::Fault(ReductionFault::MalformedOperand);
            },
        }
        i += 1;
    }
    if !ready {
        return Plan::Defer;
    }
    match apply_operator(name, items) {
        Ok(l) => Plan::Yield(l),
        Err(f) => Plan::Fault(f),
    }
}

/// What to do with the redex of `a` and `b`, where neither is a wire end.
fn plan_interaction(a: &Expr, b: &Expr, prefix: usize, wires: u64) -> (p: Plan)
    requires
        !(a@ is Var),
        !(b@ is Var),
    ensures
        p.carries_out(interact(a@, b@, prefix as nat, wires as nat), a@, b@, prefix as nat, wires as nat),
{
    let na = port_count(a);
    let nb = port_count(b);
    match (a, b) {
        (Expr::Erase, _) => Plan::EraseLeft,
        (_, Expr::Erase) => Plan::EraseRight,
        (Expr::Cons(_), Expr::Cons(_)) => {
            if na == nb {
                Plan::Annihilate
            } else {
                Plan::Fault(ReductionFault::ArityMismatch)
            }
        },
        (Expr::Dup(_, _), Expr::Dup(_, _)) => Plan::Annihilate,
        (Expr::Dup(_, _), Expr::Cons(_)) => {
            if wires as u128 + 2 * (nb as u128) <= u64::MAX as u128 {
                Plan::CommuteLeft
            } else {
                Plan::Fault(ReductionFault::WiresExhausted)
            }
        },
        (Expr::Cons(_), Expr::Dup(_, _)) => {
            if wires as u128 + 2 * (na as u128) <= u64::MAX as u128 {
                Plan::CommuteRight
            } else {
                Plan::Fault(ReductionFault::WiresExhausted)
            }
        },
        (Expr::Dup(_, _), Expr::Literal(_)) => Plan::CopyLeft,
        (Expr::Dup(_, _), Expr::Label(_)) => Plan::CopyLeft,
        (Expr::Literal(_), Expr::Dup(_, _)) => Plan::CopyRight,
        (Expr::Label(_), Expr::Dup(_, _)) => Plan::CopyRight,
        (Expr::Op(name), Expr::Args(items)) => {
            proof {
                lemma_view_args(*items);
            }
            plan_operator(name, items)
        },
        (Expr::Args(items), Expr::Op(name)) => {
            proof {
                lemma_view_args(*items);
            }
            plan_operator(name, items)
        },
        _ => Plan::Fault(ReductionFault::NoRule),
    }
}

/// The views of a list of redexes with one more redex at its end.
proof fn lemma_pairs_push(redexes: Seq<Redex>, r: Redex)
    ensures
        pairs(redexes.push(r)) == pairs(redexes).push(r@),
{
    assert(pairs(redexes.push(r)) =~= pairs(redexes).push(r@));
}

/// A prefix of a list that is one longer than another ends with the
/// element that the other stops before.
proof fn lemma_take_next<T>(s: Seq<T>, i: int)
    requires
        0 <= i < s.len(),
    ensures
        s.take(i + 1) == s.take(i).push(s[i]),
{
    assert(s.take(i + 1) =~= s.take(i).push(s[i]));
}

/// The terms at the auxiliary ports of the agent at the head of a term,
/// taken out of the term.
fn into_ports(e: Expr) -> (out: Vec<Expr>)
    ensures
        terms(out@) == ports(e@),
{
    match e {
        Expr::Cons(items) => {
            proof {
                lemma_view_cons(items);
            }
            items
        },
        Expr::Args(items) => {
            proof {
                lemma_view_args(items);
            }
            items
        },
        Expr::Dup(a, b) => {
            let mut out: Vec<Expr> = Vec::new();
            out.push(*a);
            out.push(*b);
            assert(terms(out@) =~= ports(e@));
            out
        },
        _ => {
            let out: Vec<Expr> = Vec::new();
            assert(terms(out@) =~= ports(e@));
            out
        },
    }
}

/// Puts one eraser for each target, wired to it, at the end of the worklist.
fn push_erasers(worklist: &mut Vec<Redex>, targets: Vec<Expr>)
    ensures
        pairs(final(worklist)@) == pairs(old(worklist)@) + erasers(terms(targets@)),
{
    let ghost goal = erasers(terms(targets@));
    let n = targets.len();
    let mut rest = reversed(targets);
    let mut i: usize = 0;
    while i < n
        invariant
            i <= n,
            n == targets@.len(),
            rest@.len() == n - i,
            goal == erasers(terms(targets@)),
            forall|k: int| 0 <= k < rest@.len() ==> rest@[k] == targets@[n - 1 - k],
            pairs(worklist@) == pairs(old(worklist)@) + goal.take(i as int),
        decreases n - i,
    {
        let ghost before = worklist@;
        match rest.pop() {
            Some(target) => {
                assert(target == targets@[i as int]);
                let r = Redex { lhs: Expr::Erase, rhs: target };
                proof {
                    lemma_pairs_push(before, r);
                    lemma_take_next(goal, i as int);
                    assert(r@ == goal[i as int]);
                }
                worklist.push(r);
            },
            None => {},
        }
        i += 1;
        assert(pairs(worklist@) =~= pairs(old(worklist)@) + goal.take(i as int));
    }
    assert(goal.take(n as int) =~= goal);
}

/// Puts the terms of two lists of one length, wired pairwise, at the end
/// of the worklist.
fn push_wired(worklist: &mut Vec<Redex>, lefts: Vec<Expr>, rights: Vec<Expr>)
    requires
        lefts@.len() == rights@.len(),
    ensures
        pairs(final(worklist)@) == pairs(old(worklist)@) + wired(terms(lefts@), terms(rights@)),
{
    let ghost goal = wired(terms(lefts@), terms(rights@));
    let n = lefts.len();
    let mut rest_l = reversed(lefts);
    let mut rest_r = reversed(rights);
    let mut i: usize = 0;
    while i < n
        invariant
            i <= n,
            n == lefts@.len(),
            n == rights@.len(),
            rest_l@.len() == n - i,
            rest_r@.len() == n - i,
            goal == wired(terms(lefts@), terms(rights@)),
            forall|k: int| 0 <= k < rest_l@.len() ==> rest_l@[k] == lefts@[n - 1 - k],
            forall|k: int| 0 <= k < rest_r@.len() ==> rest_r@[k] == rights@[n - 1 - k],
            pairs(worklist@) == pairs(old(worklist)@) + goal.take(i as int),
        decreases n - i,
    {
        let ghost before = worklist@;
        match (rest_l.pop(), rest_r.pop()) {
            (Some(l), Some(r)) => {
                assert(l == lefts@[i as int]);
                assert(r == rights@[i as int]);
                let redex = Redex { lhs: l, rhs: r };
                proof {
                    lemma_pairs_push(before, redex);
                    lemma_take_next(goal, i as int);
                    assert(redex@ == goal[i as int]);
                }
                worklist.push(redex);
            },
            _ => {},
        }
        i += 1;
        assert(pairs(worklist@) =~= pairs(old(worklist)@) + goal.take(i as int));
    }
    assert(goal.take(n as int) =~= goal);
}

/// Puts a leaf and a copy of it, wired to the two ports of a duplicator, at
/// the end of the worklist.
fn push_copies(worklist: &mut Vec<Redex>, leaf: Expr, dup_ports: Vec<Expr>)
    requires
        dup_ports@.len() == 2,
    ensures
        pairs(final(worklist)@) == pairs(old(worklist)@) + seq![
            (leaf@, dup_ports@[0]@),
            (leaf@, dup_ports@[1]@),
        ],
{
    let mut rest = dup_ports;
    let copy = leaf.duplicate();
    let second = rest.pop();
    let first = rest.pop();
    match (first, second) {
        (Some(d1), Some(d2)) => {
            worklist.push(Redex { lhs: leaf, rhs: d1 });
            worklist.push(Redex { lhs: copy, rhs: d2 });
        },
        _ => {},
    }
    assert(pairs(worklist@) =~= pairs(old(worklist)@) + seq![
        (leaf@, dup_ports@[0]@),
        (leaf@, dup_ports@[1]@),
    ]);
}

/// Puts what a duplicator and a constructor become at the end of the worklist.
fn push_commuted(
    worklist: &mut Vec<Redex>,
    dup_ports: Vec<Expr>,
    items: Vec<Expr>,
    prefix: usize,
    wires: u64,
)
    requires
        dup_ports@.len() == 2,
        wires + 2 * items@.len() <= u64::MAX,
    ensures
        pairs(final(worklist)@) == pairs(old(worklist)@) + commuted(
            dup_ports@[0]@,
            dup_ports@[1]@,
            terms(items@),
            prefix as nat,
            wires as nat,
        ),
{
    let ghost cs = terms(items@);
    let ghost goal = commuted(dup_ports@[0]@, dup_ports@[1]@, cs, prefix as nat, wires as nat);
    let ghost left_ends = wire_ends(prefix as nat, wires as nat, cs.len());
    let ghost right_ends = wire_ends(prefix as nat, (wires + 1) as nat, cs.len());
    let n = items.len();
    let mut rest = reversed(items);
    let mut lefts: Vec<Expr> = Vec::new();
    let mut rights: Vec<Expr> = Vec::new();
    let mut i: usize = 0;
    while i < n
        invariant
            i <= n,
            n == items@.len(),
            dup_ports@.len() == 2,
            wires + 2 * n <= u64::MAX,
            rest@.len() == n - i,
            cs == terms(items@),
            goal == commuted(dup_ports@[0]@, dup_ports@[1]@, cs, prefix as nat, wires as nat),
            left_ends == wire_ends(prefix as nat, wires as nat, cs.len()),
            right_ends == wire_ends(prefix as nat, (wires + 1) as nat, cs.len()),
            forall|k: int| 0 <= k < rest@.len() ==> rest@[k] == items@[n - 1 - k],
            lefts@.len() == i,
            rights@.len() == i,
            forall|k: int| 0 <= k < i ==> lefts@[k]@ == left_ends[k],
            forall|k: int| 0 <= k < i ==> rights@[k]@ == right_ends[k],
            pairs(worklist@) == pairs(old(worklist)@) + goal.take(i as int),
        decreases n - i,
    {
        let k: u64 = wires + 2 * (i as u64);
        let x = wire(prefix, k);
        let y = wire(prefix, k + 1);
        let ghost before = worklist@;
        match rest.pop() {
            Some(item) => {
                assert(item == items@[i as int]);
                let redex = Redex {
                    lhs: Expr::Dup(Box::new(Expr::Var(x.clone())), Box::new(Expr::Var(y.clone()))),
                    rhs: item,
                };
                proof {
                    lemma_pairs_push(before, redex);
                    lemma_take_next(goal, i as int);
                    assert(left_ends[i as int] == Term::Var(x@));
                    assert(right_ends[i as int] == Term::Var(y@));
                    let first = Expr::Var(x);
                    let second = Expr::Var(y);
                    assert(first@ == Term::Var(x@));
                    assert(second@ == Term::Var(y@));
                    assert(redex.lhs@ == Term::Dup(Box::new(first@), Box::new(second@)));
                    assert(redex.rhs@ == cs[i as int]);
                    assert(redex@ == goal[i as int]);
                }
                worklist.push(redex);
            },
            None => {},
        }
        lefts.push(Expr::Var(x));
        rights.push(Expr::Var(y));
        i += 1;
        assert(pairs(worklist@) =~= pairs(old(worklist)@) + goal.take(i as int));
    }
    let mut ends = dup_ports;
    let second = ends.pop();
    let first = ends.pop();
    proof {
        lemma_view_cons(lefts);
        lemma_view_cons(rights);
        assert(terms(lefts@) =~= left_ends);
        assert(terms(rights@) =~= right_ends);
    }
    let ghost before = worklist@;
    match (first, second) {
        (Some(d1), Some(d2)) => {
            let r1 = Redex { lhs: Expr::Cons(lefts), rhs: d1 };
            let r2 = Redex { lhs: Expr::Cons(rights), rhs: d2 };
            proof {
                lemma_pairs_push(before, r1);
                lemma_pairs_push(before.push(r1), r2);
                assert(goal.take(n as int) =~= goal.subrange(0, n as int));
                assert(goal =~= goal.take(n as int).push(r1@).push(r2@));
            }
            worklist.push(r1);
            worklist.push(r2);
        },
        _ => {},
    }
    assert(pairs(worklist@) =~= pairs(old(worklist)@) + goal);
}

/// The number of characters of the longest wire name in the first `k` redexes.
pub open spec fn longest_in_pairs(redexes: Seq<(Term, Term)>, k: nat) -> nat
    decreases k,
{
    if k == 0 || k > redexes.len() {
        0
    } else {
        larger(
            larger(longest(redexes[k - 1].0), longest(redexes[k - 1].1)),
            longest_in_pairs(redexes, (k - 1) as nat),
        )
    }
}

/// The number of characters of the longest wire name in a net.
pub open spec fn longest_in_net(root: Term, redexes: Seq<(Term, Term)>) -> nat {
    larger(longest(root), longest_in_pairs(redexes, redexes.len()))
}

/// What reducing a net gives: the net that is left, the number of
/// rewrites made, and the error that stopped the reduction, if one did.
pub struct Run {
    pub net: NetModel,
    pub steps: nat,
    pub fault: Option<ReductionError>,
}

/// Reduces a net by rewriting the redex at the front of the worklist, up
/// to `limit` times. It stops before that where the worklist is empty, and
/// where a redex cannot be rewritten; the net is then left as it was before
/// that redex was tried.
pub open spec fn run(net: NetModel, limit: nat) -> Run
    decreases limit,
{
    if limit == 0 || net.redexes.len() == 0 {
        Run { net, steps: 0, fault: None }
    } else {
        match step_at(net, 0) {
            Ok(next) => {
                let rest = run(next, (limit - 1) as nat);
                Run { net: rest.net, steps: rest.steps + 1, fault: rest.fault }
            },
            Err(e) => Run { net, steps: 0, fault: Some(e) },
        }
    }
}

/// A net: a root term and the worklist of redexes that are still to be
/// rewritten. The net owns every term in it.
#[derive(Debug, PartialEq, Eq)]
pub struct Net {
    root: Expr,
    redex: Vec<Redex>,
    wires: u64,
    prefix: usize,
}

impl View for Net {
    type V = NetModel;

    closed spec fn view(&self) -> NetModel {
        NetModel {
            root: self.root@,
            redexes: pairs(self.redex@),
            wires: self.wires as nat,
            prefix: self.prefix as nat,
        }
    }
}

impl Net {
    /// The net with this root and this worklist. It has introduced no wire
    /// yet; the names of the wires it will introduce start with as many
    /// dollar signs as the longest wire name in it has characters, so that
    /// they are longer than every name given here.
    pub fn new(root: Expr, redex: Vec<Redex>) -> (net: Net)
        ensures
            net@ == (NetModel {
                root: root@,
                redexes: pairs(redex@),
                wires: 0,
                prefix: longest_in_net(root@, pairs(redex@)),
            }),
            well_named(net@),
            net.root_term() == root,
            net.worklist() == redex@,
    {
        Net::resume(root, redex, 0)
    }

    /// The net with this root and this worklist, which numbers the wires it
    /// introduces from `wires` on. As with [`Net::new`], the names of those
    /// wires are longer than every name given here.
    pub fn resume(root: Expr, redex: Vec<Redex>, wires: u64) -> (net: Net)
        ensures
            net@ == (NetModel {
                root: root@,
                redexes: pairs(redex@),
                wires: wires as nat,
                prefix: longest_in_net(root@, pairs(redex@)),
            }),
            well_named(net@),
            net.root_term() == root,
            net.worklist() == redex@,
    {
        proof {
            lemma_new_net_well_named(root@, pairs(redex@), wires as nat);
        }
        let mut prefix = root.longest_name();
        let mut i: usize = 0;
        while i < redex.len()
            invariant
                i <= redex.len(),
                prefix == larger(longest(root@), longest_in_pairs(pairs(redex@), i as nat)),
            decreases redex.len() - i,
        {
            let a = redex[i].lhs.longest_name();
            let b = redex[i].rhs.longest_name();
            if a > prefix {
                prefix = a;
            }
            if b > prefix {
                prefix = b;
            }
            i += 1;
        }
        Net { root, redex, wires, prefix }
    }

    /// The root term itself, with the leaves it holds.
    pub closed spec fn root_term(&self) -> Expr {
        self.root
    }

    /// The redexes of the worklist themselves, with the leaves they hold.
    pub closed spec fn worklist(&self) -> Seq<Redex> {
        self.redex@
    }

    /// The net as a graph: see [`net_graph`].
    pub open spec fn graph(&self) -> Tree<Literal> {
        net_graph(self.root_term(), self@.wires as u64, self@.prefix as usize, self.worklist())
    }

    /// The root term.
    pub fn root(&self) -> (root: &Expr)
        ensures
            *root == self.root_term(),
            root@ == self@.root,
    {
        &self.root
    }

    /// The worklist, in order.
    pub fn redexes(&self) -> (redexes: &Vec<Redex>)
        ensures
            redexes@ == self.worklist(),
            pairs(redexes@) == self@.redexes,
    {
        &self.redex
    }

    /// The number of wires that the net has introduced.
    pub fn wires(&self) -> (n: u64)
        ensures
            n == self@.wires,
    {
        self.wires
    }

    /// The number of dollar signs that start the name of every wire that
    /// the net introduces.
    pub fn prefix(&self) -> (n: usize)
        ensures
            n == self@.prefix,
    {
        self.prefix
    }

    /// The number of redexes in the worklist.
    pub fn pending(&self) -> (n: usize)
        ensures
            n == self@.redexes.len(),
    {
        self.redex.len()
    }

    /// Whether the redexes at `i` and `j` are two redexes of the worklist
    /// that share no wire.
    pub fn independent(&self, i: usize, j: usize) -> (b: bool)
        ensures
            b == (i != j && i < self@.redexes.len() && j < self@.redexes.len() && !share_a_wire(
                self@.redexes[i as int],
                self@.redexes[j as int],
            )),
    {
        if i == j || i >= self.redex.len() || j >= self.redex.len() {
            return false;
        }
        !self.redex[i].shares_wire(&self.redex[j])
    }

    /// Whether the net is in normal form: whether its worklist is empty.
    pub fn is_normal(&self) -> (b: bool)
        ensures
            b == (self@.redexes.len() == 0),
    {
        self.redex.len() == 0
    }

    /// The root term, taken out of the net.
    pub fn into_root(self) -> (root: Expr)
        ensures
            root@ == self@.root,
    {
        self.root
    }

    /// Whether a wire end named `name` stands in the root or in a redex
    /// other than the one at `index`.
    fn bound_elsewhere(&self, index: usize, name: &String) -> (b: bool)
        ensures
            b == bound_elsewhere(self@, index as int, name@),
    {
        if self.root.mentions(name) {
            return true;
        }
        let ghost redexes = pairs(self.redex@);
        let mut j: usize = 0;
        while j < self.redex.len()
            invariant
                j <= self.redex.len(),
                redexes == pairs(self.redex@),
                forall|k: int| 0 <= k < j && k != index ==> !#[trigger] occurs_at(redexes, k, name@),
            decreases self.redex.len() - j,
        {
            if j != index {
                if self.redex[j].lhs.mentions(name) || self.redex[j].rhs.mentions(name) {
                    assert(self@.redexes == redexes);
                    assert(0 <= j < self@.redexes.len() && j != index && occurs_at(
                        self@.redexes,
                        j as int,
                        name@,
                    ));
                    return true;
                }
            }
            j += 1;
        }
        false
    }

    /// What to do with the redex at `index`.
    fn plan_at(&self, index: usize) -> (p: Plan)
        requires
            index < self@.redexes.len(),
        ensures
            p.carries_out(
                rewrite_at(self@, index as int),
                self@.redexes[index as int].0,
                self@.redexes[index as int].1,
                self@.prefix,
                self@.wires,
            ),
    {
        let a = &self.redex[index].lhs;
        let b = &self.redex[index].rhs;
        match a {
            Expr::Var(name) => {
                if self.bound_elsewhere(index, name) {
                    return Plan::BindLeft;
                }
            },
            _ => {},
        }
        match b {
            Expr::Var(name) => {
                if self.bound_elsewhere(index, name) {
                    return Plan::BindRight;
                }
            },
            _ => {},
        }
        match (a, b) {
            (Expr::Var(_), _) => Plan::Fault(ReductionFault::UnboundVariable),
            (_, Expr::Var(_)) => Plan::Fault(ReductionFault::UnboundVariable),
            _ => plan_interaction(a, b, self.prefix, self.wires),
        }
    }

    /// Puts a copy of `by` in place of every wire end named `name`.
    fn bind(&mut self, name: &String, by: &Expr)
        ensures
            final(self)@ == (NetModel {
                root: subst(old(self)@.root, name@, by@),
                redexes: subst_pairs(old(self)@.redexes, name@, by@),
                ..old(self)@
            }),
    {
        let root = self.root.substitute(name, by);
        let mut redex: Vec<Redex> = Vec::new();
        let mut i: usize = 0;
        while i < self.redex.len()
            invariant
                i <= self.redex.len(),
                redex@.len() == i,
                forall|k: int|
                    0 <= k < i ==> redex@[k]@ == (
                        subst(self.redex@[k].lhs@, name@, by@),
                        subst(self.redex@[k].rhs@, name@, by@),
                    ),
            decreases self.redex.len() - i,
        {
            redex.push(
                Redex {
                    lhs: self.redex[i].lhs.substitute(name, by),
                    rhs: self.redex[i].rhs.substitute(name, by),
                },
            );
            i += 1;
        }
        assert(pairs(redex@) =~= subst_pairs(pairs(self.redex@), name@, by@));
        self.root = root;
        self.redex = redex;
    }

    /// Rewrites the redex at `index` of the worklist.
    ///
    /// Where the worklist holds no redex at `index`, nothing is done and the
    /// answer is `false`. Where the redex can be rewritten, the net is what
    /// the rules make of it and the answer is `true`. Where it cannot, the
    /// net is left as it was, and the error names the redex: its place in
    /// the worklist, the kinds of its two sides, and what is wrong with it.
    pub fn step_at(&mut self, index: usize) -> (r: Result<bool, Error>)
        ensures
            index >= old(self)@.redexes.len() ==> r == Ok::<bool, Error>(false) && final(self)@
                == old(self)@,
            index < old(self)@.redexes.len() ==> match step_at(old(self)@, index as int) {
                Ok(next) => r == Ok::<bool, Error>(true) && final(self)@ == next,
                Err(e) => r == Err::<bool, Error>(Error::Reduction(e)) && final(self)@ == old(
                    self,
                )@,
            },
            well_named(old(self)@) ==> well_named(final(self)@),
    {
        if index >= self.redex.len() {
            return Ok(false);
        }
        proof {
            if well_named(self@) && step_at(self@, index as int) is Ok {
                lemma_step_keeps_names(self@, index as int);
            }
        }
        let plan = self.plan_at(index);
        if let Plan::Fault(fault) = plan {
            let lhs = self.redex[index].lhs.kind();
            let rhs = self.redex[index].rhs.kind();
            return Err(Error::Reduction(ReductionError { index, lhs, rhs, fault }));
        }
        let ghost before = self@;
        let redex = self.redex.remove(index);
        assert(pairs(self.redex@) =~= before.redexes.remove(index as int));
        assert(redex@ == before.redexes[index as int]);
        let Redex { lhs, rhs } = redex;
        match plan {
            Plan::BindLeft => {
                if let Expr::Var(name) = lhs {
                    self.bind(&name, &rhs);
                }
            },
            Plan::BindRight => {
                if let Expr::Var(name) = rhs {
                    self.bind(&name, &lhs);
                }
            },
            Plan::EraseLeft => {
                push_erasers(&mut self.redex, into_ports(rhs));
            },
            Plan::EraseRight => {
                push_erasers(&mut self.redex, into_ports(lhs));
            },
            Plan::Annihilate => {
                push_wired(&mut self.redex, into_ports(lhs), into_ports(rhs));
            },
            Plan::CommuteLeft => {
                let items = into_ports(rhs);
                let n = items.len();
                push_commuted(&mut self.redex, into_ports(lhs), items, self.prefix, self.wires);
                self.wires = self.wires + 2 * (n as u64);
            },
            Plan::CommuteRight => {
                let items = into_ports(lhs);
                let n = items.len();
                push_commuted(&mut self.redex, into_ports(rhs), items, self.prefix, self.wires);
                self.wires = self.wires + 2 * (n as u64);
            },
            Plan::CopyLeft => {
                push_copies(&mut self.redex, rhs, into_ports(lhs));
            },
            Plan::CopyRight => {
                push_copies(&mut self.redex, lhs, into_ports(rhs));
            },
            Plan::Yield(l) => {
                self.root = Expr::Literal(l);
            },
            Plan::Defer => {
                let again = Redex { lhs, rhs };
                proof {
                    lemma_pairs_push(self.redex@, again);
                }
                self.redex.push(again);
            },
            Plan::Fault(_) => {},
        }
        Ok(true)
    }

    /// Rewrites the redex at the front of the worklist; see [`Net::step_at`].
    pub fn step(&mut self) -> (r: Result<bool, Error>)
        ensures
            old(self)@.redexes.len() == 0 ==> r == Ok::<bool, Error>(false) && final(self)@ == old(
                self,
            )@,
            old(self)@.redexes.len() > 0 ==> match step_at(old(self)@, 0) {
                Ok(next) => r == Ok::<bool, Error>(true) && final(self)@ == next,
                Err(e) => r == Err::<bool, Error>(Error::Reduction(e)) && final(self)@ == old(
                    self,
                )@,
            },
            well_named(old(self)@) ==> well_named(final(self)@),
    {
        self.step_at(0)
    }

    /// Reduces the net by rewriting the redex at the front of the worklist,
    /// up to `limit` times, and says how many rewrites were made. It stops
    /// before that where the net is in normal form. Where a redex cannot be
    /// rewritten it stops with the error that names the redex, and the net
    /// is left as it was before that redex was tried.
    pub fn reduce(&mut self, limit: usize) -> (r: Result<usize, Error>)
        ensures
            final(self)@ == run(old(self)@, limit as nat).net,
            r == match run(old(self)@, limit as nat).fault {
                Some(e) => Err::<usize, Error>(Error::Reduction(e)),
                None => Ok(run(old(self)@, limit as nat).steps as usize),
            },
            run(old(self)@, limit as nat).steps <= limit,
            well_named(old(self)@) ==> well_named(final(self)@),
    {
        proof {
            if well_named(self@) {
                lemma_run_keeps_names(self@, limit as nat);
            }
        }
        let ghost goal = run(old(self)@, limit as nat);
        let mut steps: usize = 0;
        while steps < limit && self.redex.len() > 0
            invariant
                steps <= limit,
                goal == run(old(self)@, limit as nat),
                well_named(old(self)@) ==> well_named(goal.net),
                goal.net == run(self@, (limit - steps) as nat).net,
                goal.steps == steps + run(self@, (limit - steps) as nat).steps,
                goal.fault == run(self@, (limit - steps) as nat).fault,
            decreases limit - steps,
        {
            match self.step_at(0) {
                Ok(_) => {
                    steps += 1;
                },
                Err(e) => {
                    return Err(e);
                },
            }
        }
        Ok(steps)
    }
}

/// Whether some wire has an end in the term and an end in the redex.
fn has_wire_into(e: &Expr, other: &Redex) -> (b: bool)
    ensures
        b == wire_into(e@, other@),
    decreases e,
{
    match e {
        Expr::Var(name) => {
            let b = other.lhs.mentions(name) || other.rhs.mentions(name);
            proof {
                if b {
                    assert(occurs(e@, name@) && pair_mentions(other@, name@));
                }
            }
            b
        },
        Expr::Cons(items) => {
            assert(decreases_to!(*e => e->Cons_0));
            proof {
                lemma_view_cons(*items);
            }
            let b = any_wire_into(items, other);
            proof {
                lemma_wire_into_list(terms(items@), other@);
            }
            b
        },
        Expr::Args(items) => {
            assert(decreases_to!(*e => e->Args_0));
            proof {
                lemma_view_args(*items);
            }
            let b = any_wire_into(items, other);
            proof {
                lemma_wire_into_list(terms(items@), other@);
            }
            b
        },
        Expr::Dup(x, y) => {
            let bx = has_wire_into(x, other);
            let by = has_wire_into(y, other);
            proof {
                if bx {
                    let name = choose|name: Seq<char>| #[trigger]
                        occurs(x@, name) && pair_mentions(other@, name);
                    assert(occurs(e@, name) && pair_mentions(other@, name));
                }
                if by {
                    let name = choose|name: Seq<char>| #[trigger]
                        occurs(y@, name) && pair_mentions(other@, name);
                    assert(occurs(e@, name) && pair_mentions(other@, name));
                }
            }
            proof {
                if wire_into(e@, other@) {
                    let name = choose|name: Seq<char>| #[trigger]
                        occurs(e@, name) && pair_mentions(other@, name);
                    if occurs(x@, name) {
                        assert(occurs(x@, name) && pair_mentions(other@, name));
                    } else {
                        assert(occurs(y@, name) && pair_mentions(other@, name));
                    }
                }
            }
            bx || by
        },
        _ => false,
    }
}

/// Whether some wire has an end in one of the terms and an end in the redex.
fn any_wire_into(items: &Vec<Expr>, other: &Redex) -> (b: bool)
    ensures
        b == exists|i: int| 0 <= i < items@.len() && wire_into(#[trigger] terms(items@)[i], other@),
    decreases items,
{
    let mut i: usize = 0;
    while i < items.len()
        invariant
            i <= items.len(),
            forall|k: int| 0 <= k < i ==> !wire_into(#[trigger] terms(items@)[k], other@),
        decreases items.len() - i,
    {
        assert(decreases_to!(*items => items@[i as int]));
        if has_wire_into(&items[i], other) {
            assert(wire_into(terms(items@)[i as int], other@));
            return true;
        }
        i += 1;
    }
    false
}

impl Redex {
    /// Whether the two redexes share a wire. Redexes that share none can be
    /// rewritten in either order, or at once, without touching each other.
    pub fn shares_wire(&self, other: &Redex) -> (b: bool)
        ensures
            b == share_a_wire(self@, other@),
    {
        has_wire_into(&self.lhs, other) || has_wire_into(&self.rhs, other)
    }
}

impl GraphModel<Literal> for Net {
    open spec fn schema(&self) -> Schema {
        schema_of(self.graph())
    }

    fn visit_model<V: ModelVisitor<Literal>>(&self, v: V) -> (out: V::Output) {
        walk_model_net(&self.root, self.wires, self.prefix, &self.redex, v)
    }
}

impl GraphSerialize<Literal> for Net {
    open spec fn tree(&self) -> Tree<Literal> {
        self.graph()
    }

    fn visit<V: Visitor<Literal>>(&self, v: V) -> (out: V::Output) {
        walk_net(&self.root, self.wires, self.prefix, &self.redex, v)
    }

    fn visit_into<V: IntoVisitor<Literal>>(self, v: V) -> (out: V::Output) {
        walk_into_net(self.root, self.wires, self.prefix, self.redex, v)
    }
}

} // verus!
