//! What holds of the wires of a net in every state: the names of the
//! wires that a net introduces are fresh, and a rewrite touches no redex
//! that shares no wire with the one rewritten.

use vstd::prelude::*;

use crate::text::{decimal, lemma_decimal_injective, lemma_decimal_nonempty};
use crate::vm::expr::{longest, longest_within, occurs, occurs_within, subst, wire_name, Term};
use crate::vm::net::{
    commuted, interact, is_leaf, longest_in_net, longest_in_pairs, occurs_at, ports, rewrite_at,
    run, step_at, wire_ends, NetModel, Rewrite,
};

verus! {

/// Whether a wire end named `name` stands anywhere in the net.
pub open spec fn net_mentions(net: NetModel, name: Seq<char>) -> bool {
    occurs(net.root, name) || exists|j: int|
        0 <= j < net.redexes.len() && #[trigger] occurs_at(net.redexes, j, name)
}

/// Whether `name` is the name of a wire that a net with this prefix has
/// introduced among its first `wires` wires.
pub open spec fn introduced(name: Seq<char>, prefix: nat, wires: nat) -> bool {
    exists|k: nat| k < wires && name == #[trigger] wire_name(prefix, k)
}

/// Whether a net with this prefix and this many wires may hold the name: it
/// is a name that the net was given, which has at most `prefix` characters,
/// or the name of a wire that the net has introduced.
pub open spec fn name_in_order(name: Seq<char>, prefix: nat, wires: nat) -> bool {
    name.len() <= prefix || introduced(name, prefix, wires)
}

/// Whether every wire name in the net is in order.
pub open spec fn well_named(net: NetModel) -> bool {
    forall|name: Seq<char>| #[trigger]
        net_mentions(net, name) ==> name_in_order(name, net.prefix, net.wires)
}

/// The name of an introduced wire is longer than the prefix.
pub proof fn lemma_wire_name_long(prefix: nat, k: nat)
    ensures
        wire_name(prefix, k).len() > prefix,
{
    lemma_decimal_nonempty(k);
}

/// Two wires of one net with the same name are the same wire.
pub proof fn lemma_wire_name_injective(prefix: nat, a: nat, b: nat)
    requires
        wire_name(prefix, a) == wire_name(prefix, b),
    ensures
        a == b,
{
    let na = wire_name(prefix, a);
    let nb = wire_name(prefix, b);
    assert(na.subrange(prefix as int, na.len() as int) =~= decimal(a));
    assert(nb.subrange(prefix as int, nb.len() as int) =~= decimal(b));
    lemma_decimal_injective(a, b);
}

/// In a net whose names are in order, no wire that the net has yet to
/// introduce has an end anywhere: the wires it introduces are fresh.
pub proof fn lemma_next_wires_unused(net: NetModel, k: nat)
    requires
        well_named(net),
        k >= net.wires,
    ensures
        !net_mentions(net, wire_name(net.prefix, k)),
{
    let name = wire_name(net.prefix, k);
    lemma_wire_name_long(net.prefix, k);
    if net_mentions(net, name) {
        assert(name_in_order(name, net.prefix, net.wires));
        let j = choose|j: nat| j < net.wires && name == #[trigger] wire_name(net.prefix, j);
        lemma_wire_name_injective(net.prefix, j, k);
    }
}

/// A wire name that stands in a term is no longer than the longest wire
/// name in the term.
proof fn lemma_occurs_bounded(t: Term, name: Seq<char>)
    requires
        occurs(t, name),
    ensures
        name.len() <= longest(t),
    decreases t, 0nat,
{
    match t {
        Term::Cons(items) => {
            lemma_occurs_within_bounded(items, name, items.len());
        },
        Term::Args(items) => {
            lemma_occurs_within_bounded(items, name, items.len());
        },
        Term::Dup(a, b) => {
            if occurs(*a, name) {
                lemma_occurs_bounded(*a, name);
            } else {
                lemma_occurs_bounded(*b, name);
            }
        },
        _ => {},
    }
}

/// A wire name that stands in one of the first `k` terms of a list is no
/// longer than the longest wire name in them.
proof fn lemma_occurs_within_bounded(items: Seq<Term>, name: Seq<char>, k: nat)
    requires
        k <= items.len(),
        occurs_within(items, name, k),
    ensures
        name.len() <= longest_within(items, k),
    decreases items, k,
{
    if k > 0 {
        if occurs(items[k - 1], name) {
            lemma_occurs_bounded(items[k - 1], name);
        } else {
            lemma_occurs_within_bounded(items, name, (k - 1) as nat);
        }
    }
}

/// A wire name that stands in one of the terms of a list stands within the list.
pub(crate) proof fn lemma_occurs_at_index(items: Seq<Term>, name: Seq<char>, i: int, k: nat)
    requires
        0 <= i < k <= items.len(),
        occurs(items[i], name),
    ensures
        occurs_within(items, name, k),
    decreases k,
{
    if i < k - 1 {
        lemma_occurs_at_index(items, name, i, (k - 1) as nat);
    }
}

/// A wire name that stands within the first `k` terms of a list stands in
/// one of them.
proof fn lemma_occurs_witness(items: Seq<Term>, name: Seq<char>, k: nat) -> (i: int)
    requires
        k <= items.len(),
        occurs_within(items, name, k),
    ensures
        0 <= i < k,
        occurs(items[i], name),
    decreases k,
{
    if occurs(items[k - 1], name) {
        k - 1
    } else {
        lemma_occurs_witness(items, name, (k - 1) as nat)
    }
}

/// A wire name that stands at a port of an agent stands in the agent's term.
proof fn lemma_port_names(t: Term, i: int, name: Seq<char>)
    requires
        0 <= i < ports(t).len(),
        occurs(ports(t)[i], name),
    ensures
        occurs(t, name),
{
    match t {
        Term::Cons(items) => {
            lemma_occurs_at_index(items, name, i, items.len());
        },
        Term::Args(items) => {
            lemma_occurs_at_index(items, name, i, items.len());
        },
        _ => {},
    }
}

/// Binding a wire brings no name into a term but those of the term bound
/// to it.
proof fn lemma_subst_names(t: Term, x: Seq<char>, by: Term, name: Seq<char>)
    requires
        occurs(subst(t, x, by), name),
    ensures
        occurs(t, name) || occurs(by, name),
    decreases t,
{
    match t {
        Term::Cons(items) => {
            let after = subst(t, x, by)->Cons_0;
            let i = lemma_occurs_witness(after, name, after.len());
            lemma_subst_names(items[i], x, by, name);
            if occurs(items[i], name) {
                lemma_occurs_at_index(items, name, i, items.len());
            }
        },
        Term::Args(items) => {
            let after = subst(t, x, by)->Args_0;
            let i = lemma_occurs_witness(after, name, after.len());
            lemma_subst_names(items[i], x, by, name);
            if occurs(items[i], name) {
                lemma_occurs_at_index(items, name, i, items.len());
            }
        },
        Term::Dup(a, b) => {
            if occurs(subst(*a, x, by), name) {
                lemma_subst_names(*a, x, by, name);
            } else {
                lemma_subst_names(*b, x, by, name);
            }
        },
        _ => {},
    }
}

/// Whether `name` is the name of one of the `used` wires that a net with
/// this prefix introduces after its first `wires` wires.
pub open spec fn newly_introduced(name: Seq<char>, prefix: nat, wires: nat, used: nat) -> bool {
    exists|k: nat| wires <= k < wires + used && name == #[trigger] wire_name(prefix, k)
}

/// Whether every wire name in the redexes is one of `a`, one of `b`, or
/// the name of a newly introduced wire.
pub open spec fn names_accounted(
    fresh: Seq<(Term, Term)>,
    a: Term,
    b: Term,
    prefix: nat,
    wires: nat,
    used: nat,
) -> bool {
    forall|j: int, name: Seq<char>|
        0 <= j < fresh.len() && #[trigger] occurs_at(fresh, j, name) ==> occurs(a, name) || occurs(
            b,
            name,
        ) || newly_introduced(name, prefix, wires, used)
}

/// The ends of fresh wires have the names of newly introduced wires.
proof fn lemma_wire_end_names(prefix: nat, wires: nat, first: nat, n: nat, name: Seq<char>)
    requires
        first == wires || first == wires + 1,
        occurs(Term::Cons(wire_ends(prefix, first, n)), name),
    ensures
        newly_introduced(name, prefix, wires, 2 * n),
{
    let ends = wire_ends(prefix, first, n);
    let i = lemma_occurs_witness(ends, name, ends.len());
    let k = (first + 2 * i) as nat;
    assert(name == wire_name(prefix, k));
    assert(wires <= k < wires + 2 * n);
}

/// What a duplicator and a constructor become holds no name but theirs
/// and those of the wires that join the new agents.
proof fn lemma_commuted_names(d: Term, c: Term, prefix: nat, wires: nat)
    requires
        d is Dup,
    ensures
        names_accounted(
            commuted(ports(d)[0], ports(d)[1], ports(c), prefix, wires),
            d,
            c,
            prefix,
            wires,
            2 * ports(c).len(),
        ),
{
    let items = ports(c);
    let n = items.len();
    let fresh = commuted(ports(d)[0], ports(d)[1], items, prefix, wires);
    let lefts = wire_ends(prefix, wires, n);
    let rights = wire_ends(prefix, wires + 1, n);
    assert forall|j: int, name: Seq<char>|
        0 <= j < fresh.len() && #[trigger] occurs_at(fresh, j, name) implies occurs(d, name)
        || occurs(c, name) || newly_introduced(name, prefix, wires, 2 * n) by {
        if j < n {
            assert(fresh[j] == (Term::Dup(Box::new(lefts[j]), Box::new(rights[j])), items[j]));
            if occurs(fresh[j].1, name) {
                lemma_port_names(c, j, name);
            } else {
                if occurs(lefts[j], name) {
                    let k = (wires + 2 * j) as nat;
                    assert(name == wire_name(prefix, k));
                    assert(wires <= k < wires + 2 * n);
                } else {
                    let k = (wires + 1 + 2 * j) as nat;
                    assert(occurs(rights[j], name));
                    assert(name == wire_name(prefix, k));
                    assert(wires <= k < wires + 2 * n);
                }
            }
        } else if j == n {
            assert(fresh[j] == (Term::Cons(lefts), ports(d)[0]));
            if occurs(fresh[j].0, name) {
                lemma_wire_end_names(prefix, wires, wires, n, name);
            } else {
                lemma_port_names(d, 0, name);
            }
        } else {
            assert(fresh[j] == (Term::Cons(rights), ports(d)[1]));
            if occurs(fresh[j].0, name) {
                lemma_wire_end_names(prefix, wires, wires + 1, n, name);
            } else {
                lemma_port_names(d, 1, name);
            }
        }
    }
}

/// What two agents become holds no name but theirs and those of newly
/// introduced wires.
proof fn lemma_interact_names(a: Term, b: Term, prefix: nat, wires: nat)
    ensures
        interact(a, b, prefix, wires) matches Rewrite::Spawn(fresh, used) ==> names_accounted(
            fresh,
            a,
            b,
            prefix,
            wires,
            used,
        ),
        interact(a, b, prefix, wires) matches Rewrite::Yield(t) ==> t is Literal,
        !(interact(a, b, prefix, wires) is Bind),
{
    match interact(a, b, prefix, wires) {
        Rewrite::Spawn(fresh, used) => {
            if a is Erase {
                assert forall|j: int, name: Seq<char>|
                    0 <= j < fresh.len() && #[trigger] occurs_at(fresh, j, name) implies occurs(
                    b,
                    name,
                ) by {
                    lemma_port_names(b, j, name);
                }
            } else if b is Erase {
                assert forall|j: int, name: Seq<char>|
                    0 <= j < fresh.len() && #[trigger] occurs_at(fresh, j, name) implies occurs(
                    a,
                    name,
                ) by {
                    lemma_port_names(a, j, name);
                }
            } else if (a is Cons && b is Cons) || (a is Dup && b is Dup) {
                assert forall|j: int, name: Seq<char>|
                    0 <= j < fresh.len() && #[trigger] occurs_at(fresh, j, name) implies occurs(
                    a,
                    name,
                ) || occurs(b, name) by {
                    if occurs(fresh[j].0, name) {
                        lemma_port_names(a, j, name);
                    } else {
                        lemma_port_names(b, j, name);
                    }
                }
            } else if a is Dup && b is Cons {
                lemma_commuted_names(a, b, prefix, wires);
            } else if a is Cons && b is Dup {
                lemma_commuted_names(b, a, prefix, wires);
                assert forall|j: int, name: Seq<char>|
                    0 <= j < fresh.len() && #[trigger] occurs_at(fresh, j, name) implies occurs(
                    a,
                    name,
                ) || occurs(b, name) || newly_introduced(name, prefix, wires, used) by {}
            } else if a is Dup && is_leaf(b) {
                assert forall|j: int, name: Seq<char>|
                    0 <= j < fresh.len() && #[trigger] occurs_at(fresh, j, name) implies occurs(
                    a,
                    name,
                ) || occurs(b, name) by {
                    if !occurs(fresh[j].0, name) {
                        lemma_port_names(a, j, name);
                    }
                }
            } else {
                assert forall|j: int, name: Seq<char>|
                    0 <= j < fresh.len() && #[trigger] occurs_at(fresh, j, name) implies occurs(
                    a,
                    name,
                ) || occurs(b, name) by {
                    if !occurs(fresh[j].0, name) {
                        lemma_port_names(b, j, name);
                    }
                }
            }
        },
        _ => {},
    }
}

/// A wire name in order stays in order when the net introduces more wires.
proof fn lemma_in_order_later(name: Seq<char>, prefix: nat, wires: nat, used: nat)
    requires
        name_in_order(name, prefix, wires) || newly_introduced(name, prefix, wires, used),
    ensures
        name_in_order(name, prefix, wires + used),
{
    if name.len() > prefix {
        if introduced(name, prefix, wires) {
            let k = choose|k: nat| k < wires && name == #[trigger] wire_name(prefix, k);
            assert(k < wires + used && name == wire_name(prefix, k));
        } else {
            let k = choose|k: nat|
                wires <= k < wires + used && name == #[trigger] wire_name(prefix, k);
            assert(k < wires + used && name == wire_name(prefix, k));
        }
    }
}

/// Rewriting a redex keeps the wire names of a net in order.
pub proof fn lemma_step_keeps_names(net: NetModel, index: int)
    requires
        well_named(net),
        0 <= index < net.redexes.len(),
        step_at(net, index) is Ok,
    ensures
        well_named(step_at(net, index)->Ok_0),
{
    let next = step_at(net, index)->Ok_0;
    let a = net.redexes[index].0;
    let b = net.redexes[index].1;
    let rest = net.redexes.remove(index);
    assert forall|j: int, name: Seq<char>|
        0 <= j < rest.len() && #[trigger] occurs_at(rest, j, name) implies net_mentions(
        net,
        name,
    ) by {
        if j < index {
            assert(occurs_at(net.redexes, j, name));
        } else {
            assert(occurs_at(net.redexes, j + 1, name));
        }
    }
    assert forall|name: Seq<char>| occurs(a, name) || occurs(b, name) implies net_mentions(
        net,
        name,
    ) by {
        assert(occurs_at(net.redexes, index, name));
    }
    if !(a is Var) && !(b is Var) {
        lemma_interact_names(a, b, net.prefix, net.wires);
    }
    assert forall|name: Seq<char>| #[trigger] net_mentions(next, name) implies name_in_order(
        name,
        next.prefix,
        next.wires,
    ) by {
        match rewrite_at(net, index) {
            Rewrite::Spawn(fresh, used) => {
                if occurs(next.root, name) {
                    assert(net_mentions(net, name));
                } else {
                    let j = choose|j: int|
                        0 <= j < next.redexes.len() && #[trigger] occurs_at(next.redexes, j, name);
                    if j < rest.len() {
                        assert(occurs_at(rest, j, name));
                        assert(net_mentions(net, name));
                    } else {
                        assert(occurs_at(fresh, j - rest.len(), name));
                        if occurs(a, name) || occurs(b, name) {
                            assert(net_mentions(net, name));
                        }
                    }
                }
                lemma_in_order_later(name, net.prefix, net.wires, used);
            },
            Rewrite::Bind(x, by) => {
                if occurs(next.root, name) {
                    lemma_subst_names(net.root, x, by, name);
                } else {
                    let j = choose|j: int|
                        0 <= j < next.redexes.len() && #[trigger] occurs_at(next.redexes, j, name);
                    if occurs(next.redexes[j].0, name) {
                        lemma_subst_names(rest[j].0, x, by, name);
                    } else {
                        lemma_subst_names(rest[j].1, x, by, name);
                    }
                    if !occurs(by, name) {
                        assert(occurs_at(rest, j, name));
                    }
                }
                assert(net_mentions(net, name));
            },
            Rewrite::Yield(t) => {
                let j = choose|j: int|
                    0 <= j < next.redexes.len() && #[trigger] occurs_at(next.redexes, j, name);
                assert(occurs_at(rest, j, name));
                assert(net_mentions(net, name));
            },
            Rewrite::Defer => {
                if occurs(next.root, name) {
                    assert(net_mentions(net, name));
                } else {
                    let j = choose|j: int|
                        0 <= j < next.redexes.len() && #[trigger] occurs_at(next.redexes, j, name);
                    if j < rest.len() {
                        assert(occurs_at(rest, j, name));
                    } else {
                        assert(occurs(a, name) || occurs(b, name));
                    }
                    assert(net_mentions(net, name));
                }
            },
            Rewrite::Fault(_) => {},
        }
    }
}

/// A wire name that stands in one of the first `k` redexes is no longer
/// than the longest wire name in them.
proof fn lemma_pairs_bounded(redexes: Seq<(Term, Term)>, j: int, name: Seq<char>, k: nat)
    requires
        0 <= j < k <= redexes.len(),
        occurs_at(redexes, j, name),
    ensures
        name.len() <= longest_in_pairs(redexes, k),
    decreases k,
{
    if j == k - 1 {
        if occurs(redexes[j].0, name) {
            lemma_occurs_bounded(redexes[j].0, name);
        } else {
            lemma_occurs_bounded(redexes[j].1, name);
        }
    } else {
        lemma_pairs_bounded(redexes, j, name, (k - 1) as nat);
    }
}

/// The wire names of a net whose prefix is as long as its longest wire name
/// are in order, whatever the number of its wires.
pub proof fn lemma_new_net_well_named(root: Term, redexes: Seq<(Term, Term)>, wires: nat)
    ensures
        well_named(NetModel { root, redexes, wires, prefix: longest_in_net(root, redexes) }),
{
    let net = NetModel { root, redexes, wires, prefix: longest_in_net(root, redexes) };
    assert forall|name: Seq<char>| #[trigger] net_mentions(net, name) implies name_in_order(
        name,
        net.prefix,
        net.wires,
    ) by {
        if occurs(root, name) {
            lemma_occurs_bounded(root, name);
        } else {
            let j = choose|j: int|
                0 <= j < redexes.len() && #[trigger] occurs_at(redexes, j, name);
            lemma_pairs_bounded(redexes, j, name, redexes.len());
        }
    }
}

/// Reducing a net keeps its wire names in order.
pub proof fn lemma_run_keeps_names(net: NetModel, limit: nat)
    requires
        well_named(net),
    ensures
        well_named(run(net, limit).net),
    decreases limit,
{
    if limit > 0 && net.redexes.len() > 0 {
        match step_at(net, 0) {
            Ok(next) => {
                lemma_step_keeps_names(net, 0);
                lemma_run_keeps_names(next, (limit - 1) as nat);
            },
            Err(_) => {},
        }
    }
}

/// Whether a wire end named `name` stands on either side of a redex.
pub open spec fn pair_mentions(pair: (Term, Term), name: Seq<char>) -> bool {
    occurs(pair.0, name) || occurs(pair.1, name)
}

/// Whether some wire has an end in the term and an end in the redex.
pub open spec fn wire_into(t: Term, other: (Term, Term)) -> bool {
    exists|name: Seq<char>| #[trigger] occurs(t, name) && pair_mentions(other, name)
}

/// Whether two redexes share a wire: whether some wire has an end in each.
pub open spec fn share_a_wire(a: (Term, Term), b: (Term, Term)) -> bool {
    wire_into(a.0, b) || wire_into(a.1, b)
}

/// Binding a wire that has no end in a term leaves the term as it is.
pub proof fn lemma_subst_absent(t: Term, x: Seq<char>, by: Term)
    requires
        !occurs(t, x),
    ensures
        subst(t, x, by) == t,
    decreases t,
{
    match t {
        Term::Cons(items) => {
            assert forall|i: int| 0 <= i < items.len() implies subst(items[i], x, by)
                == #[trigger] items[i] by {
                if occurs(items[i], x) {
                    lemma_occurs_at_index(items, x, i, items.len());
                }
                lemma_subst_absent(items[i], x, by);
            }
            assert(subst(t, x, by)->Cons_0 =~= items);
        },
        Term::Args(items) => {
            assert forall|i: int| 0 <= i < items.len() implies subst(items[i], x, by)
                == #[trigger] items[i] by {
                if occurs(items[i], x) {
                    lemma_occurs_at_index(items, x, i, items.len());
                }
                lemma_subst_absent(items[i], x, by);
            }
            assert(subst(t, x, by)->Args_0 =~= items);
        },
        Term::Dup(a, b) => {
            lemma_subst_absent(*a, x, by);
            lemma_subst_absent(*b, x, by);
        },
        _ => {},
    }
}

/// The place that the redex at `j` has in the worklist after the redex at
/// `index` has been taken out.
pub open spec fn place_after(index: int, j: int) -> int {
    if j < index {
        j
    } else {
        j - 1
    }
}

/// A rewrite is local: rewriting a redex leaves every redex that shares no
/// wire with it as it was.
pub proof fn lemma_step_is_local(net: NetModel, index: int, j: int)
    requires
        0 <= index < net.redexes.len(),
        0 <= j < net.redexes.len(),
        j != index,
        !share_a_wire(net.redexes[index], net.redexes[j]),
        step_at(net, index) is Ok,
    ensures
        place_after(index, j) < step_at(net, index)->Ok_0.redexes.len(),
        step_at(net, index)->Ok_0.redexes[place_after(index, j)] == net.redexes[j],
{
    let rest = net.redexes.remove(index);
    let a = net.redexes[index].0;
    let b = net.redexes[index].1;
    let other = net.redexes[j];
    assert(rest[place_after(index, j)] == other);
    match rewrite_at(net, index) {
        Rewrite::Bind(x, by) => {
            assert(occurs(a, x) || occurs(b, x));
            if occurs(other.0, x) || occurs(other.1, x) {
                assert(pair_mentions(other, x));
                if occurs(a, x) {
                    assert(wire_into(a, other));
                } else {
                    assert(wire_into(b, other));
                }
            }
            lemma_subst_absent(other.0, x, by);
            lemma_subst_absent(other.1, x, by);
        },
        _ => {},
    }
}

/// A wire has an end in a constructor, or in an operand list, and an end
/// in a redex, exactly when it has an end in one of the elements and an
/// end in the redex.
pub(crate) proof fn lemma_wire_into_list(items: Seq<Term>, other: (Term, Term))
    ensures
        wire_into(Term::Cons(items), other) == exists|i: int|
            0 <= i < items.len() && wire_into(#[trigger] items[i], other),
        wire_into(Term::Args(items), other) == exists|i: int|
            0 <= i < items.len() && wire_into(#[trigger] items[i], other),
{
    if wire_into(Term::Cons(items), other) {
        let name = choose|name: Seq<char>| #[trigger]
            occurs(Term::Cons(items), name) && pair_mentions(other, name);
        let i = lemma_occurs_witness(items, name, items.len());
        assert(occurs(items[i], name) && pair_mentions(other, name));
        assert(wire_into(items[i], other));
    }
    if wire_into(Term::Args(items), other) {
        let name = choose|name: Seq<char>| #[trigger]
            occurs(Term::Args(items), name) && pair_mentions(other, name);
        let i = lemma_occurs_witness(items, name, items.len());
        assert(occurs(items[i], name) && pair_mentions(other, name));
        assert(wire_into(items[i], other));
    }
    if exists|i: int| 0 <= i < items.len() && wire_into(#[trigger] items[i], other) {
        let i = choose|i: int| 0 <= i < items.len() && wire_into(#[trigger] items[i], other);
        let name = choose|name: Seq<char>| #[trigger]
            occurs(items[i], name) && pair_mentions(other, name);
        lemma_occurs_at_index(items, name, i, items.len());
        assert(occurs(Term::Cons(items), name) && pair_mentions(other, name));
        assert(occurs(Term::Args(items), name) && pair_mentions(other, name));
    }
}

} // verus!
