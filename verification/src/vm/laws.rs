//! What the rules of the net promise: a rewrite is bounded, an operator on
//! literals fires in one step, and erasing a term without wires comes to
//! an end.

use vstd::prelude::*;

use crate::error::{ReductionError, ReductionFault};
use crate::vm::expr::{apply_op, kind_of, occurs, Term};
use crate::vm::net::{
    erasers, operands_in_order, operands_ready, ports, rewrite_at, run, step_at, NetModel, Rewrite,
};
use crate::vm::wires::lemma_occurs_at_index;

verus! {

/// A rewrite is bounded: it takes one redex out of the worklist and puts in
/// at most one redex for each auxiliary port of the two agents, and two
/// more; it introduces at most two wires for each of those ports.
pub proof fn lemma_step_is_bounded(net: NetModel, index: int)
    requires
        0 <= index < net.redexes.len(),
        step_at(net, index) is Ok,
    ensures
        step_at(net, index)->Ok_0.redexes.len() + 1 <= net.redexes.len() + ports(
            net.redexes[index].0,
        ).len() + ports(net.redexes[index].1).len() + 2,
        net.wires <= step_at(net, index)->Ok_0.wires <= net.wires + 2 * (ports(
            net.redexes[index].0,
        ).len() + ports(net.redexes[index].1).len()),
        step_at(net, index)->Ok_0.prefix == net.prefix,
{
}

/// An operator whose operands are all literals fires in one step: where it
/// gives a literal, the redex is gone and the literal is the root of the
/// net; where it gives none, the step fails with what the operator says.
pub proof fn lemma_operator_fires(net: NetModel, index: int)
    requires
        0 <= index < net.redexes.len(),
        net.redexes[index].0 is Op,
        net.redexes[index].1 is Args,
        operands_ready(ports(net.redexes[index].1)),
    ensures
        step_at(net, index) == match apply_op(
            net.redexes[index].0->Op_0,
            ports(net.redexes[index].1),
        ) {
            Ok(l) => Ok::<NetModel, ReductionError>(
                NetModel {
                    root: Term::Literal(l),
                    redexes: net.redexes.remove(index),
                    ..net
                },
            ),
            Err(fault) => Err(
                ReductionError {
                    index: index as usize,
                    lhs: kind_of(net.redexes[index].0),
                    rhs: kind_of(net.redexes[index].1),
                    fault,
                },
            ),
        },
{
    let items = ports(net.redexes[index].1);
    assert(operands_in_order(items));
}

/// An operator that meets anything but its operands, a wire end or an
/// eraser has no rule: the step fails and names the redex.
pub proof fn lemma_operator_without_operands(net: NetModel, index: int)
    requires
        0 <= index < net.redexes.len(),
        net.redexes[index].0 is Op,
        !(net.redexes[index].1 is Args),
        !(net.redexes[index].1 is Var),
        !(net.redexes[index].1 is Erase),
    ensures
        step_at(net, index) == Err::<NetModel, ReductionError>(
            ReductionError {
                index: index as usize,
                lhs: kind_of(net.redexes[index].0),
                rhs: kind_of(net.redexes[index].1),
                fault: ReductionFault::NoRule,
            },
        ),
{
}

/// Whether no wire has an end in the term.
pub open spec fn wireless(t: Term) -> bool {
    forall|name: Seq<char>| !#[trigger] occurs(t, name)
}

/// The number of agents and leaves in a term.
pub open spec fn size(t: Term) -> nat
    decreases t, 0nat,
{
    match t {
        Term::Cons(items) => 1 + size_within(items, items.len()),
        Term::Args(items) => 1 + size_within(items, items.len()),
        Term::Dup(a, b) => 1 + size(*a) + size(*b),
        _ => 1,
    }
}

/// The number of agents and leaves in the first `k` terms of a list.
pub open spec fn size_within(items: Seq<Term>, k: nat) -> nat
    decreases items, k,
{
    if k == 0 || k > items.len() {
        0
    } else {
        size_within(items, (k - 1) as nat) + size(items[k - 1])
    }
}

/// Whether every redex of the worklist is an eraser wired to a term
/// without wires.
pub open spec fn erasing(redexes: Seq<(Term, Term)>) -> bool {
    forall|j: int|
        0 <= j < redexes.len() ==> (#[trigger] redexes[j]).0 is Erase && wireless(redexes[j].1)
}

/// The number of agents and leaves on the right sides of the first `k` redexes.
pub open spec fn weight(redexes: Seq<(Term, Term)>, k: nat) -> nat
    decreases k,
{
    if k == 0 || k > redexes.len() {
        0
    } else {
        weight(redexes, (k - 1) as nat) + size(redexes[k - 1].1)
    }
}

/// The weight of a worklist without its first redex.
proof fn lemma_weight_rest(redexes: Seq<(Term, Term)>, k: nat)
    requires
        1 <= k <= redexes.len(),
    ensures
        weight(redexes, k) == size(redexes[0].1) + weight(redexes.remove(0), (k - 1) as nat),
    decreases k,
{
    let rest = redexes.remove(0);
    if k > 1 {
        lemma_weight_rest(redexes, (k - 1) as nat);
        assert(rest[k - 2] == redexes[k - 1]);
    } else {
        assert(weight(redexes, 0) == 0);
        assert(weight(rest, 0) == 0);
    }
}

/// The weight of two worklists, one behind the other.
proof fn lemma_weight_joined(front: Seq<(Term, Term)>, back: Seq<(Term, Term)>, k: nat)
    requires
        k <= back.len(),
    ensures
        weight(front + back, front.len() + k) == weight(front, front.len()) + weight(back, k),
    decreases k,
{
    let all = front + back;
    if k == 0 {
        lemma_weight_prefix(all, front, front.len());
    } else {
        lemma_weight_joined(front, back, (k - 1) as nat);
        assert(all[front.len() + k - 1] == back[k - 1]);
    }
}

/// The weight of the first redexes of a worklist depends on those redexes alone.
proof fn lemma_weight_prefix(all: Seq<(Term, Term)>, front: Seq<(Term, Term)>, k: nat)
    requires
        k <= front.len() <= all.len(),
        forall|j: int| 0 <= j < front.len() ==> all[j] == front[j],
    ensures
        weight(all, k) == weight(front, k),
    decreases k,
{
    if k > 0 {
        lemma_weight_prefix(all, front, (k - 1) as nat);
    }
}

/// The weight of the erasers of a list of terms is the size of the terms.
proof fn lemma_weight_erasers(items: Seq<Term>, k: nat)
    requires
        k <= items.len(),
    ensures
        weight(erasers(items), k) == size_within(items, k),
    decreases k,
{
    if k > 0 {
        lemma_weight_erasers(items, (k - 1) as nat);
    }
}

/// The size of a term is one more than the size of the terms at its ports.
proof fn lemma_size_ports(t: Term)
    ensures
        size(t) == 1 + size_within(ports(t), ports(t).len()),
{
    match t {
        Term::Dup(a, b) => {
            let p = ports(t);
            assert(size_within(p, 0) == 0);
            assert(size_within(p, 1) == size(*a));
            assert(size_within(p, 2) == size(*a) + size(*b));
        },
        Term::Cons(_) => {},
        Term::Args(_) => {},
        _ => {
            assert(size_within(ports(t), 0) == 0);
        },
    }
}

/// The terms at the ports of a term without wires are without wires.
proof fn lemma_wireless_ports(t: Term, i: int)
    requires
        wireless(t),
        0 <= i < ports(t).len(),
    ensures
        wireless(ports(t)[i]),
{
    assert forall|name: Seq<char>| !#[trigger] occurs(ports(t)[i], name) by {
        if occurs(ports(t)[i], name) {
            match t {
                Term::Cons(items) => {
                    lemma_occurs_at_index(items, name, i, items.len());
                },
                Term::Args(items) => {
                    lemma_occurs_at_index(items, name, i, items.len());
                },
                _ => {},
            }
            assert(occurs(t, name));
        }
    }
}

/// Erasure comes to an end: a net whose redexes are all erasers wired to
/// terms without wires reaches its normal form in as many rewrites as
/// those terms have agents and leaves, without a fault, and with its root
/// as it was.
pub proof fn lemma_erasure_terminates(net: NetModel, limit: nat)
    requires
        erasing(net.redexes),
        limit >= weight(net.redexes, net.redexes.len()),
    ensures
        run(net, limit).fault is None,
        run(net, limit).net.redexes.len() == 0,
        run(net, limit).net.root == net.root,
        run(net, limit).steps == weight(net.redexes, net.redexes.len()),
    decreases weight(net.redexes, net.redexes.len()),
{
    let redexes = net.redexes;
    if redexes.len() > 0 {
        let t = redexes[0].1;
        let rest = redexes.remove(0);
        let fresh = erasers(ports(t));
        lemma_weight_rest(redexes, redexes.len());
        lemma_size_ports(t);
        assert(redexes[0].0 is Erase && wireless(t));
        assert(!(t is Var)) by {
            if t is Var {
                assert(occurs(t, t->Var_0));
            }
        }
        assert(rewrite_at(net, 0) == Rewrite::Spawn(fresh, 0));
        let next = step_at(net, 0)->Ok_0;
        assert(next.redexes == rest + fresh);
        assert forall|j: int| 0 <= j < next.redexes.len() implies (#[trigger] next.redexes[j]).0
            is Erase && wireless(next.redexes[j].1) by {
            if j < rest.len() {
                assert(rest[j] == redexes[j + 1]);
            } else {
                lemma_wireless_ports(t, j - rest.len());
            }
        }
        lemma_weight_joined(rest, fresh, fresh.len());
        lemma_weight_erasers(ports(t), ports(t).len());
        assert(weight(next.redexes, next.redexes.len()) + 1 == weight(redexes, redexes.len()));
        lemma_erasure_terminates(next, (limit - 1) as nat);
    }
}

} // verus!
