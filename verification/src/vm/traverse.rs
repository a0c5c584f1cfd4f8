//! Terms, redexes and nets as graphs.

use vstd::prelude::*;
use vstd::string::StringExecFns;

use crate::graph::{
    into_fold, lemma_into_node, lemma_model_node, lemma_visit_node, model_fold, schema_of,
    schemas_of, visit_fold, GraphModel, GraphSerialize, IntoVisitor, ModelVisitor, Schema, Tree,
    Visitor,
};
use crate::lists::reversed;
use crate::types::{Primitive, PrimitiveType, TypeInfo};
use crate::vm::expr::{
    lemma_view_args, lemma_view_cons, terms, Expr, Literal, LiteralModel, Term,
};
use crate::vm::net::Redex;

verus! {

/// The scalar that a literal holds; nothing for a string or an array.
pub open spec fn scalar_of(l: LiteralModel) -> Option<Primitive> {
    match l {
        LiteralModel::Bool(v) => Some(Primitive::Bool(v)),
        LiteralModel::U8(v) => Some(Primitive::U8(v)),
        LiteralModel::U16(v) => Some(Primitive::U16(v)),
        LiteralModel::U32(v) => Some(Primitive::U32(v)),
        LiteralModel::U64(v) => Some(Primitive::U64(v)),
        LiteralModel::I8(v) => Some(Primitive::I8(v)),
        LiteralModel::I16(v) => Some(Primitive::I16(v)),
        LiteralModel::I32(v) => Some(Primitive::I32(v)),
        LiteralModel::I64(v) => Some(Primitive::I64(v)),
        _ => None,
    }
}

impl Literal {
    /// The scalar that the literal holds; nothing for a string or an array.
    pub fn as_primitive(&self) -> (r: Option<Primitive>)
        ensures
            r == scalar_of(self@),
    {
        match self {
            Literal::Bool(v) => Some(Primitive::Bool(*v)),
            Literal::U8(v) => Some(Primitive::U8(*v)),
            Literal::U16(v) => Some(Primitive::U16(*v)),
            Literal::U32(v) => Some(Primitive::U32(*v)),
            Literal::U64(v) => Some(Primitive::U64(*v)),
            Literal::I8(v) => Some(Primitive::I8(*v)),
            Literal::I16(v) => Some(Primitive::I16(*v)),
            Literal::I32(v) => Some(Primitive::I32(*v)),
            Literal::I64(v) => Some(Primitive::I64(*v)),
            _ => None,
        }
    }
}

/// A term as a graph: a scalar literal is a scalar, a string or an array
/// literal is a leaf, and every other term is a node that is named after
/// its kind. The parts of a constructor, a duplicator and an operand list
/// are the terms at their ports; the one part of a wire end, a label and an
/// operator is the name, as a string leaf; an eraser has no part.
pub open spec fn graph_of(e: Expr) -> Tree<Literal>
    decreases e,
{
    match e {
        Expr::Literal(l) => match scalar_of(l@) {
            Some(p) => Tree::Primitive(p),
            None => Tree::Leaf(l),
        },
        Expr::Var(name) => Tree::Node("Var"@, seq![Tree::Leaf(Literal::String(name))]),
        Expr::Label(name) => Tree::Node("Label"@, seq![Tree::Leaf(Literal::String(name))]),
        Expr::Erase => Tree::Node("Erase"@, Seq::empty()),
        Expr::Cons(items) => Tree::Node(
            "Cons"@,
            Seq::new(
                items@.len(),
                |i: int|
                    if 0 <= i < items@.len() {
                        graph_of(items@[i])
                    } else {
                        Tree::Node("Erase"@, Seq::empty())
                    },
            ),
        ),
        Expr::Dup(a, b) => Tree::Node("Dup"@, seq![graph_of(*a), graph_of(*b)]),
        Expr::Op(name) => Tree::Node("Op"@, seq![Tree::Leaf(Literal::String(name))]),
        Expr::Args(items) => Tree::Node(
            "Args"@,
            Seq::new(
                items@.len(),
                |i: int|
                    if 0 <= i < items@.len() {
                        graph_of(items@[i])
                    } else {
                        Tree::Node("Erase"@, Seq::empty())
                    },
            ),
        ),
    }
}

/// The graphs of a list of terms.
pub open spec fn graphs_of(items: Seq<Expr>) -> Seq<Tree<Literal>> {
    Seq::new(items.len(), |i: int| graph_of(items[i]))
}

/// The type information with the display name `name`.
fn named(name: &str) -> (info: TypeInfo)
    ensures
        info@ == name@,
{
    TypeInfo::new(String::from_str(name))
}

/// The graph of a constructor or of an operand list has the graphs of the
/// elements as its parts.
proof fn lemma_graph_parts(e: Expr)
    ensures
        e matches Expr::Cons(items) ==> graph_of(e) == Tree::Node("Cons"@, graphs_of(items@)),
        e matches Expr::Args(items) ==> graph_of(e) == Tree::Node("Args"@, graphs_of(items@)),
{
    match e {
        Expr::Cons(items) => {
            assert(graph_of(e)->Node_1 =~= graphs_of(items@));
        },
        Expr::Args(items) => {
            assert(graph_of(e)->Node_1 =~= graphs_of(items@));
        },
        _ => {},
    }
}

/// Drives a shape visitor over a term.
fn walk_model<V: ModelVisitor<Literal>>(e: &Expr, v: V) -> (out: V::Output)
    ensures
        V::summary(&out) == model_fold::<Literal, V>(v, schema_of(graph_of(*e))),
    decreases e,
{
    match e {
        Expr::Literal(l) => match l.as_primitive() {
            Some(p) => v.visited_primitive(p.primitive_type()),
            None => v.visited_leaf_ref(),
        },
        Expr::Var(_) => {
            let mut parts: Vec<V::Output> = Vec::new();
            parts.push(v.fork().visited_leaf_ref());
            walk_model_node(e, v, "Var", parts)
        },
        Expr::Label(_) => {
            let mut parts: Vec<V::Output> = Vec::new();
            parts.push(v.fork().visited_leaf_ref());
            walk_model_node(e, v, "Label", parts)
        },
        Expr::Op(_) => {
            let mut parts: Vec<V::Output> = Vec::new();
            parts.push(v.fork().visited_leaf_ref());
            walk_model_node(e, v, "Op", parts)
        },
        Expr::Erase => {
            let parts: Vec<V::Output> = Vec::new();
            walk_model_node(e, v, "Erase", parts)
        },
        Expr::Dup(a, b) => {
            let mut parts: Vec<V::Output> = Vec::new();
            parts.push(walk_model(a, v.fork()));
            parts.push(walk_model(b, v.fork()));
            walk_model_node(e, v, "Dup", parts)
        },
        Expr::Cons(items) => {
            assert(decreases_to!(*e => e->Cons_0));
            proof {
                lemma_graph_parts(*e);
            }
            let parts = walk_model_all(items, &v);
            walk_model_node(e, v, "Cons", parts)
        },
        Expr::Args(items) => {
            assert(decreases_to!(*e => e->Args_0));
            proof {
                lemma_graph_parts(*e);
            }
            let parts = walk_model_all(items, &v);
            walk_model_node(e, v, "Args", parts)
        },
    }
}

/// Has the visitor compose what was made of the parts of the node `e`.
fn walk_model_node<V: ModelVisitor<Literal>>(
    e: &Expr,
    v: V,
    name: &str,
    parts: Vec<V::Output>,
) -> (out: V::Output)
    requires
        graph_of(*e) is Node,
        graph_of(*e)->Node_0 == name@,
        parts@.len() == graph_of(*e)->Node_1.len(),
        forall|i: int|
            0 <= i < parts@.len() ==> V::summary(&parts@[i]) == model_fold::<Literal, V>(
                v.forked(),
                schema_of(#[trigger] graph_of(*e)->Node_1[i]),
            ),
    ensures
        V::summary(&out) == model_fold::<Literal, V>(v, schema_of(graph_of(*e))),
{
    let ghost made = Seq::new(parts@.len(), |i: int| V::summary(&parts@[i]));
    proof {
        lemma_model_node::<Literal, V>(v, name@, graph_of(*e)->Node_1, made);
    }
    v.visited_composite(&named(name), parts)
}

/// Drives forks of a shape visitor over the terms of a list.
fn walk_model_all<V: ModelVisitor<Literal>>(items: &Vec<Expr>, v: &V) -> (parts: Vec<V::Output>)
    ensures
        parts@.len() == items@.len(),
        forall|i: int|
            0 <= i < parts@.len() ==> V::summary(&#[trigger] parts@[i]) == model_fold::<Literal, V>(
                v.forked(),
                schema_of(graph_of(items@[i])),
            ),
    decreases items,
{
    let mut parts: Vec<V::Output> = Vec::new();
    let mut i: usize = 0;
    while i < items.len()
        invariant
            i <= items.len(),
            parts@.len() == i,
            forall|k: int|
                0 <= k < i ==> V::summary(&#[trigger] parts@[k]) == model_fold::<Literal, V>(
                    v.forked(),
                    schema_of(graph_of(items@[k])),
                ),
        decreases items.len() - i,
    {
        assert(decreases_to!(*items => items@[i as int]));
        parts.push(walk_model(&items[i], v.fork()));
        i += 1;
    }
    parts
}

impl GraphModel<Literal> for Expr {
    open spec fn schema(&self) -> Schema {
        schema_of(graph_of(*self))
    }

    fn visit_model<V: ModelVisitor<Literal>>(&self, v: V) -> (out: V::Output) {
        walk_model(self, v)
    }
}

/// Drives a borrowing visitor over a term.
fn walk<V: Visitor<Literal>>(e: &Expr, v: V) -> (out: V::Output)
    ensures
        V::summary(&out) == visit_fold::<Literal, V>(v, graph_of(*e)),
    decreases e,
{
    match e {
        Expr::Literal(l) => match l.as_primitive() {
            Some(p) => v.visited_primitive(p),
            None => v.visited_leaf(l),
        },
        Expr::Var(name) => {
            let leaf = Literal::String(name.clone());
            let mut parts: Vec<V::Output> = Vec::new();
            parts.push(v.fork().visited_leaf(&leaf));
            walk_node(e, v, "Var", parts)
        },
        Expr::Label(name) => {
            let leaf = Literal::String(name.clone());
            let mut parts: Vec<V::Output> = Vec::new();
            parts.push(v.fork().visited_leaf(&leaf));
            walk_node(e, v, "Label", parts)
        },
        Expr::Op(name) => {
            let leaf = Literal::String(name.clone());
            let mut parts: Vec<V::Output> = Vec::new();
            parts.push(v.fork().visited_leaf(&leaf));
            walk_node(e, v, "Op", parts)
        },
        Expr::Erase => {
            let parts: Vec<V::Output> = Vec::new();
            walk_node(e, v, "Erase", parts)
        },
        Expr::Dup(a, b) => {
            let mut parts: Vec<V::Output> = Vec::new();
            parts.push(walk(a, v.fork()));
            parts.push(walk(b, v.fork()));
            walk_node(e, v, "Dup", parts)
        },
        Expr::Cons(items) => {
            assert(decreases_to!(*e => e->Cons_0));
            proof {
                lemma_graph_parts(*e);
            }
            let parts = walk_all(items, &v);
            walk_node(e, v, "Cons", parts)
        },
        Expr::Args(items) => {
            assert(decreases_to!(*e => e->Args_0));
            proof {
                lemma_graph_parts(*e);
            }
            let parts = walk_all(items, &v);
            walk_node(e, v, "Args", parts)
        },
    }
}

/// Has the visitor compose what was made of the parts of the node `e`.
fn walk_node<V: Visitor<Literal>>(e: &Expr, v: V, name: &str, parts: Vec<V::Output>) -> (out:
    V::Output)
    requires
        graph_of(*e) is Node,
        graph_of(*e)->Node_0 == name@,
        parts@.len() == graph_of(*e)->Node_1.len(),
        forall|i: int|
            0 <= i < parts@.len() ==> V::summary(&parts@[i]) == visit_fold::<Literal, V>(
                v.forked(),
                #[trigger] graph_of(*e)->Node_1[i],
            ),
    ensures
        V::summary(&out) == visit_fold::<Literal, V>(v, graph_of(*e)),
{
    let ghost made = Seq::new(parts@.len(), |i: int| V::summary(&parts@[i]));
    proof {
        lemma_visit_node::<Literal, V>(v, name@, graph_of(*e)->Node_1, made);
    }
    v.visited_composite(&named(name), parts)
}

/// Drives forks of a borrowing visitor over the terms of a list.
fn walk_all<V: Visitor<Literal>>(items: &Vec<Expr>, v: &V) -> (parts: Vec<V::Output>)
    ensures
        parts@.len() == items@.len(),
        forall|i: int|
            0 <= i < parts@.len() ==> V::summary(&#[trigger] parts@[i]) == visit_fold::<Literal, V>(
                v.forked(),
                graph_of(items@[i]),
            ),
    decreases items,
{
    let mut parts: Vec<V::Output> = Vec::new();
    let mut i: usize = 0;
    while i < items.len()
        invariant
            i <= items.len(),
            parts@.len() == i,
            forall|k: int|
                0 <= k < i ==> V::summary(&#[trigger] parts@[k]) == visit_fold::<Literal, V>(
                    v.forked(),
                    graph_of(items@[k]),
                ),
        decreases items.len() - i,
    {
        assert(decreases_to!(*items => items@[i as int]));
        parts.push(walk(&items[i], v.fork()));
        i += 1;
    }
    parts
}

/// Drives an owning visitor over a term, which it takes apart.
fn walk_into<V: IntoVisitor<Literal>>(e: Expr, v: V) -> (out: V::Output)
    ensures
        V::summary(&out) == into_fold::<Literal, V>(v, graph_of(e)),
    decreases e,
{
    let ghost graph = graph_of(e);
    proof {
        lemma_graph_parts(e);
    }
    match e {
        Expr::Literal(l) => match l.as_primitive() {
            Some(p) => v.visited_primitive(p),
            None => v.visited_leaf(l),
        },
        Expr::Var(name) => {
            let mut parts: Vec<V::Output> = Vec::new();
            parts.push(v.fork().visited_leaf(Literal::String(name)));
            walk_into_node(Ghost(graph), v, "Var", parts)
        },
        Expr::Label(name) => {
            let mut parts: Vec<V::Output> = Vec::new();
            parts.push(v.fork().visited_leaf(Literal::String(name)));
            walk_into_node(Ghost(graph), v, "Label", parts)
        },
        Expr::Op(name) => {
            let mut parts: Vec<V::Output> = Vec::new();
            parts.push(v.fork().visited_leaf(Literal::String(name)));
            walk_into_node(Ghost(graph), v, "Op", parts)
        },
        Expr::Erase => {
            let parts: Vec<V::Output> = Vec::new();
            walk_into_node(Ghost(graph), v, "Erase", parts)
        },
        Expr::Dup(a, b) => {
            let mut parts: Vec<V::Output> = Vec::new();
            parts.push(walk_into(*a, v.fork()));
            parts.push(walk_into(*b, v.fork()));
            walk_into_node(Ghost(graph), v, "Dup", parts)
        },
        Expr::Cons(items) => {
            assert(decreases_to!(e => e->Cons_0));
            let parts = walk_into_all(items, &v);
            walk_into_node(Ghost(graph), v, "Cons", parts)
        },
        Expr::Args(items) => {
            assert(decreases_to!(e => e->Args_0));
            let parts = walk_into_all(items, &v);
            walk_into_node(Ghost(graph), v, "Args", parts)
        },
    }
}

/// Has the visitor compose what was made of the parts of a node.
fn walk_into_node<V: IntoVisitor<Literal>>(
    Ghost(graph): Ghost<Tree<Literal>>,
    v: V,
    name: &str,
    parts: Vec<V::Output>,
) -> (out: V::Output)
    requires
        graph is Node,
        graph->Node_0 == name@,
        parts@.len() == graph->Node_1.len(),
        forall|i: int|
            0 <= i < parts@.len() ==> V::summary(&parts@[i]) == into_fold::<Literal, V>(
                v.forked(),
                #[trigger] graph->Node_1[i],
            ),
    ensures
        V::summary(&out) == into_fold::<Literal, V>(v, graph),
{
    let ghost made = Seq::new(parts@.len(), |i: int| V::summary(&parts@[i]));
    proof {
        lemma_into_node::<Literal, V>(v, name@, graph->Node_1, made);
    }
    v.visited_composite(&named(name), parts)
}

/// Drives forks of an owning visitor over the terms of a list, which it
/// takes apart.
fn walk_into_all<V: IntoVisitor<Literal>>(items: Vec<Expr>, v: &V) -> (parts: Vec<V::Output>)
    ensures
        parts@.len() == items@.len(),
        forall|i: int|
            0 <= i < parts@.len() ==> V::summary(&#[trigger] parts@[i]) == into_fold::<Literal, V>(
                v.forked(),
                graph_of(items@[i]),
            ),
    decreases items,
{
    let n = items.len();
    let mut rest = reversed(items);
    let mut parts: Vec<V::Output> = Vec::new();
    let mut i: usize = 0;
    while i < n
        invariant
            i <= n,
            n == items@.len(),
            rest@.len() == n - i,
            forall|k: int| 0 <= k < rest@.len() ==> rest@[k] == items@[n - 1 - k],
            parts@.len() == i,
            forall|k: int|
                0 <= k < i ==> V::summary(&#[trigger] parts@[k]) == into_fold::<Literal, V>(
                    v.forked(),
                    graph_of(items@[k]),
                ),
        decreases n - i,
    {
        match rest.pop() {
            Some(item) => {
                assert(item == items@[i as int]);
                assert(decreases_to!(items => items@[i as int]));
                parts.push(walk_into(item, v.fork()));
            },
            None => {},
        }
        i += 1;
    }
    parts
}

impl GraphSerialize<Literal> for Expr {
    open spec fn tree(&self) -> Tree<Literal> {
        graph_of(*self)
    }

    fn visit<V: Visitor<Literal>>(&self, v: V) -> (out: V::Output) {
        walk(self, v)
    }

    fn visit_into<V: IntoVisitor<Literal>>(self, v: V) -> (out: V::Output) {
        walk_into(self, v)
    }
}

/// The shape of a term, read off its mathematical value: a scalar literal
/// is its kind, a string or an array literal is a leaf, and every other
/// term is a node named after its kind. Neither the value of a scalar, nor
/// what a leaf holds, nor any name is looked at.
pub open spec fn shape_of(t: Term) -> Schema
    decreases t,
{
    match t {
        Term::Literal(l) => match scalar_of(l) {
            Some(p) => Schema::Primitive(p.kind()),
            None => Schema::LeafRef,
        },
        Term::Var(_) => Schema::Node("Var"@, seq![Schema::LeafRef]),
        Term::Label(_) => Schema::Node("Label"@, seq![Schema::LeafRef]),
        Term::Op(_) => Schema::Node("Op"@, seq![Schema::LeafRef]),
        Term::Erase => Schema::Node("Erase"@, Seq::empty()),
        Term::Cons(items) => Schema::Node("Cons"@, shapes_of(items)),
        Term::Dup(a, b) => Schema::Node("Dup"@, seq![shape_of(*a), shape_of(*b)]),
        Term::Args(items) => Schema::Node("Args"@, shapes_of(items)),
    }
}

/// The shapes of a list of terms.
pub open spec fn shapes_of(items: Seq<Term>) -> Seq<Schema>
    decreases items,
{
    Seq::new(
        items.len(),
        |i: int|
            if 0 <= i < items.len() {
                shape_of(items[i])
            } else {
                Schema::LeafRef
            },
    )
}

/// The shape that a term declares is the shape of its graph.
pub proof fn lemma_schema_of_tree(e: Expr)
    ensures
        e.schema() == schema_of(e.tree()),
{
}

/// The shape that a term declares is the shape of its mathematical value:
/// it is a function of the kinds and the places in the term, and of
/// nothing that a leaf holds.
pub proof fn lemma_schema_from_view(e: Expr)
    ensures
        e.schema() == shape_of(e@),
    decreases e,
{
    lemma_graph_parts(e);
    match e {
        Expr::Cons(items) => {
            lemma_view_cons(items);
            assert forall|i: int| 0 <= i < items@.len() implies schema_of(graph_of(items@[i]))
                == shape_of(#[trigger] terms(items@)[i]) by {
                assert(decreases_to!(e => e->Cons_0));
                assert(decreases_to!(items => items@[i]));
                lemma_schema_from_view(items@[i]);
            }
            assert(schemas_of(graphs_of(items@)) =~= shapes_of(terms(items@)));
        },
        Expr::Args(items) => {
            lemma_view_args(items);
            assert forall|i: int| 0 <= i < items@.len() implies schema_of(graph_of(items@[i]))
                == shape_of(#[trigger] terms(items@)[i]) by {
                assert(decreases_to!(e => e->Args_0));
                assert(decreases_to!(items => items@[i]));
                lemma_schema_from_view(items@[i]);
            }
            assert(schemas_of(graphs_of(items@)) =~= shapes_of(terms(items@)));
        },
        Expr::Dup(a, b) => {
            lemma_schema_from_view(*a);
            lemma_schema_from_view(*b);
            assert(schemas_of(seq![graph_of(*a), graph_of(*b)]) =~= seq![
                shape_of((*a)@),
                shape_of((*b)@),
            ]);
        },
        Expr::Var(name) => {
            assert(schemas_of(seq![Tree::Leaf(Literal::String(name))]) =~= seq![Schema::LeafRef]);
        },
        Expr::Label(name) => {
            assert(schemas_of(seq![Tree::Leaf(Literal::String(name))]) =~= seq![Schema::LeafRef]);
        },
        Expr::Op(name) => {
            assert(schemas_of(seq![Tree::Leaf(Literal::String(name))]) =~= seq![Schema::LeafRef]);
        },
        Expr::Erase => {
            assert(schemas_of(Seq::<Tree<Literal>>::empty()) =~= Seq::<Schema>::empty());
        },
        Expr::Literal(l) => {},
    }
}

/// Two terms of one shape are the same to every shape visitor, whatever
/// their leaves hold.
pub proof fn lemma_schema_ignores_leaf_data<V: ModelVisitor<Literal>>(a: Expr, b: Expr, v: V)
    requires
        shape_of(a@) == shape_of(b@),
    ensures
        a.schema() == b.schema(),
        model_fold::<Literal, V>(v, a.schema()) == model_fold::<Literal, V>(v, b.schema()),
{
    lemma_schema_from_view(a);
    lemma_schema_from_view(b);
}

/// A redex as a graph: a node with the graphs of its two sides.
pub open spec fn redex_graph(r: Redex) -> Tree<Literal> {
    Tree::Node("Redex"@, seq![graph_of(r.lhs), graph_of(r.rhs)])
}

/// The graphs of a list of redexes.
pub open spec fn redex_graphs(redexes: Seq<Redex>) -> Seq<Tree<Literal>> {
    Seq::new(redexes.len(), |i: int| redex_graph(redexes[i]))
}

/// A net as a graph, from its parts: the root, the number of wires it has
/// introduced, the length of the prefix of their names, and the worklist,
/// which is a node of the redexes in order.
pub open spec fn net_graph(root: Expr, wires: u64, prefix: usize, redexes: Seq<Redex>) -> Tree<
    Literal,
> {
    Tree::Node(
        "Net"@,
        seq![
            graph_of(root),
            Tree::Primitive(Primitive::U64(wires)),
            Tree::Primitive(Primitive::U64(prefix as u64)),
            Tree::Node("Worklist"@, redex_graphs(redexes)),
        ],
    )
}

/// Drives a shape visitor over a redex.
fn walk_model_redex<V: ModelVisitor<Literal>>(r: &Redex, v: V) -> (out: V::Output)
    ensures
        V::summary(&out) == model_fold::<Literal, V>(v, schema_of(redex_graph(*r))),
{
    let mut parts: Vec<V::Output> = Vec::new();
    parts.push(walk_model(&r.lhs, v.fork()));
    parts.push(walk_model(&r.rhs, v.fork()));
    let ghost made = Seq::new(parts@.len(), |i: int| V::summary(&parts@[i]));
    proof {
        lemma_model_node::<Literal, V>(
            v,
            "Redex"@,
            seq![graph_of(r.lhs), graph_of(r.rhs)],
            made,
        );
    }
    v.visited_composite(&named("Redex"), parts)
}

/// Drives a borrowing visitor over a redex.
fn walk_redex<V: Visitor<Literal>>(r: &Redex, v: V) -> (out: V::Output)
    ensures
        V::summary(&out) == visit_fold::<Literal, V>(v, redex_graph(*r)),
{
    let mut parts: Vec<V::Output> = Vec::new();
    parts.push(walk(&r.lhs, v.fork()));
    parts.push(walk(&r.rhs, v.fork()));
    let ghost made = Seq::new(parts@.len(), |i: int| V::summary(&parts@[i]));
    proof {
        lemma_visit_node::<Literal, V>(
            v,
            "Redex"@,
            seq![graph_of(r.lhs), graph_of(r.rhs)],
            made,
        );
    }
    v.visited_composite(&named("Redex"), parts)
}

/// Drives an owning visitor over a redex, which it takes apart.
fn walk_into_redex<V: IntoVisitor<Literal>>(r: Redex, v: V) -> (out: V::Output)
    ensures
        V::summary(&out) == into_fold::<Literal, V>(v, redex_graph(r)),
{
    let ghost graph = redex_graph(r);
    let Redex { lhs, rhs } = r;
    let mut parts: Vec<V::Output> = Vec::new();
    parts.push(walk_into(lhs, v.fork()));
    parts.push(walk_into(rhs, v.fork()));
    walk_into_node(Ghost(graph), v, "Redex", parts)
}

impl GraphModel<Literal> for Redex {
    open spec fn schema(&self) -> Schema {
        schema_of(redex_graph(*self))
    }

    fn visit_model<V: ModelVisitor<Literal>>(&self, v: V) -> (out: V::Output) {
        walk_model_redex(self, v)
    }
}

impl GraphSerialize<Literal> for Redex {
    open spec fn tree(&self) -> Tree<Literal> {
        redex_graph(*self)
    }

    fn visit<V: Visitor<Literal>>(&self, v: V) -> (out: V::Output) {
        walk_redex(self, v)
    }

    fn visit_into<V: IntoVisitor<Literal>>(self, v: V) -> (out: V::Output) {
        walk_into_redex(self, v)
    }
}

/// Drives a shape visitor over the parts of a net.
pub(crate) fn walk_model_net<V: ModelVisitor<Literal>>(
    root: &Expr,
    wires: u64,
    prefix: usize,
    redexes: &Vec<Redex>,
    v: V,
) -> (out: V::Output)
    ensures
        V::summary(&out) == model_fold::<Literal, V>(
            v,
            schema_of(net_graph(*root, wires, prefix, redexes@)),
        ),
{
    let list = v.fork();
    let mut items: Vec<V::Output> = Vec::new();
    let mut i: usize = 0;
    while i < redexes.len()
        invariant
            i <= redexes.len(),
            items@.len() == i,
            forall|k: int|
                0 <= k < i ==> V::summary(&#[trigger] items@[k]) == model_fold::<Literal, V>(
                    list.forked(),
                    schema_of(redex_graph(redexes@[k])),
                ),
        decreases redexes.len() - i,
    {
        items.push(walk_model_redex(&redexes[i], list.fork()));
        i += 1;
    }
    let ghost made = Seq::new(items@.len(), |k: int| V::summary(&items@[k]));
    proof {
        lemma_model_node::<Literal, V>(list, "Worklist"@, redex_graphs(redexes@), made);
    }
    let worklist = list.visited_composite(&named("Worklist"), items);
    let mut parts: Vec<V::Output> = Vec::new();
    parts.push(walk_model(root, v.fork()));
    parts.push(v.fork().visited_primitive(PrimitiveType::U64));
    parts.push(v.fork().visited_primitive(PrimitiveType::U64));
    parts.push(worklist);
    let ghost graph = net_graph(*root, wires, prefix, redexes@);
    let ghost all = Seq::new(parts@.len(), |k: int| V::summary(&parts@[k]));
    proof {
        lemma_model_node::<Literal, V>(v, "Net"@, graph->Node_1, all);
    }
    v.visited_composite(&named("Net"), parts)
}

/// Drives a borrowing visitor over the parts of a net.
pub(crate) fn walk_net<V: Visitor<Literal>>(
    root: &Expr,
    wires: u64,
    prefix: usize,
    redexes: &Vec<Redex>,
    v: V,
) -> (out: V::Output)
    ensures
        V::summary(&out) == visit_fold::<Literal, V>(
            v,
            net_graph(*root, wires, prefix, redexes@),
        ),
{
    let list = v.fork();
    let mut items: Vec<V::Output> = Vec::new();
    let mut i: usize = 0;
    while i < redexes.len()
        invariant
            i <= redexes.len(),
            items@.len() == i,
            forall|k: int|
                0 <= k < i ==> V::summary(&#[trigger] items@[k]) == visit_fold::<Literal, V>(
                    list.forked(),
                    redex_graph(redexes@[k]),
                ),
        decreases redexes.len() - i,
    {
        items.push(walk_redex(&redexes[i], list.fork()));
        i += 1;
    }
    let ghost made = Seq::new(items@.len(), |k: int| V::summary(&items@[k]));
    proof {
        lemma_visit_node::<Literal, V>(list, "Worklist"@, redex_graphs(redexes@), made);
    }
    let worklist = list.visited_composite(&named("Worklist"), items);
    let mut parts: Vec<V::Output> = Vec::new();
    parts.push(walk(root, v.fork()));
    parts.push(v.fork().visited_primitive(Primitive::U64(wires)));
    parts.push(v.fork().visited_primitive(Primitive::U64(prefix as u64)));
    parts.push(worklist);
    let ghost graph = net_graph(*root, wires, prefix, redexes@);
    let ghost all = Seq::new(parts@.len(), |k: int| V::summary(&parts@[k]));
    proof {
        lemma_visit_node::<Literal, V>(v, "Net"@, graph->Node_1, all);
    }
    v.visited_composite(&named("Net"), parts)
}

/// Drives an owning visitor over the parts of a net, which it takes apart.
pub(crate) fn walk_into_net<V: IntoVisitor<Literal>>(
    root: Expr,
    wires: u64,
    prefix: usize,
    redexes: Vec<Redex>,
    v: V,
) -> (out: V::Output)
    ensures
        V::summary(&out) == into_fold::<Literal, V>(v, net_graph(root, wires, prefix, redexes@)),
{
    let ghost graph = net_graph(root, wires, prefix, redexes@);
    let list = v.fork();
    let n = redexes.len();
    let mut rest = reversed(redexes);
    let mut items: Vec<V::Output> = Vec::new();
    let mut i: usize = 0;
    while i < n
        invariant
            i <= n,
            n == redexes@.len(),
            rest@.len() == n - i,
            forall|k: int| 0 <= k < rest@.len() ==> rest@[k] == redexes@[n - 1 - k],
            items@.len() == i,
            forall|k: int|
                0 <= k < i ==> V::summary(&#[trigger] items@[k]) == into_fold::<Literal, V>(
                    list.forked(),
                    redex_graph(redexes@[k]),
                ),
        decreases n - i,
    {
        match rest.pop() {
            Some(r) => {
                items.push(walk_into_redex(r, list.fork()));
            },
            None => {},
        }
        i += 1;
    }
    let ghost made = Seq::new(items@.len(), |k: int| V::summary(&items@[k]));
    proof {
        lemma_into_node::<Literal, V>(list, "Worklist"@, redex_graphs(redexes@), made);
    }
    let worklist = list.visited_composite(&named("Worklist"), items);
    let mut parts: Vec<V::Output> = Vec::new();
    parts.push(walk_into(root, v.fork()));
    parts.push(v.fork().visited_primitive(Primitive::U64(wires)));
    parts.push(v.fork().visited_primitive(Primitive::U64(prefix as u64)));
    parts.push(worklist);
    walk_into_node(Ghost(graph), v, "Net", parts)
}

} // verus!
