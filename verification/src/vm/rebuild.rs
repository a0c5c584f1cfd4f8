//! Building a term again from its graph.

use vstd::prelude::*;
use vstd::string::StringExecFns;

use crate::error::Error;
use crate::graph::{visit_fold, visit_fold_each, Tree, Visitor};
use crate::identity::Identity;
use crate::tape::{
    entries, lemma_written_is_read, own_leaves, owns_leaves, parse, taped, Datum,
};
use crate::lists::reversed;
use crate::types::{Primitive, TypeInfo};
use crate::vm::expr::{lemma_view_args, lemma_view_cons, terms, Expr, Literal, LiteralModel, Term};
use crate::graph::{GraphModel, GraphSerialize};
use crate::vm::traverse::{graph_of, graphs_of};

verus! {

/// The literal that holds a scalar; nothing for a floating-point scalar,
/// which no literal holds.
pub open spec fn literal_of(p: Primitive) -> Option<LiteralModel> {
    match p {
        Primitive::Bool(v) => Some(LiteralModel::Bool(v)),
        Primitive::U8(v) => Some(LiteralModel::U8(v)),
        Primitive::U16(v) => Some(LiteralModel::U16(v)),
        Primitive::U32(v) => Some(LiteralModel::U32(v)),
        Primitive::U64(v) => Some(LiteralModel::U64(v)),
        Primitive::I8(v) => Some(LiteralModel::I8(v)),
        Primitive::I16(v) => Some(LiteralModel::I16(v)),
        Primitive::I32(v) => Some(LiteralModel::I32(v)),
        Primitive::I64(v) => Some(LiteralModel::I64(v)),
        _ => None,
    }
}

impl Literal {
    /// The literal that holds a scalar; nothing for a floating-point
    /// scalar, which no literal holds.
    pub fn from_primitive(p: Primitive) -> (r: Option<Literal>)
        ensures
            r is Some <==> literal_of(p) is Some,
            r matches Some(l) ==> literal_of(p) == Some(l@),
    {
        match p {
            Primitive::Bool(v) => Some(Literal::Bool(v)),
            Primitive::U8(v) => Some(Literal::U8(v)),
            Primitive::U16(v) => Some(Literal::U16(v)),
            Primitive::U32(v) => Some(Literal::U32(v)),
            Primitive::U64(v) => Some(Literal::U64(v)),
            Primitive::I8(v) => Some(Literal::I8(v)),
            Primitive::I16(v) => Some(Literal::I16(v)),
            Primitive::I32(v) => Some(Literal::I32(v)),
            Primitive::I64(v) => Some(Literal::I64(v)),
            _ => None,
        }
    }
}

/// The first error among the first `k` results of a list, if there is one.
pub open spec fn first_error(parts: Seq<Result<Term, Error>>, k: nat) -> Option<Error>
    decreases k,
{
    if k == 0 || k > parts.len() {
        None
    } else {
        match first_error(parts, (k - 1) as nat) {
            Some(e) => Some(e),
            None => match parts[k - 1] {
                Ok(_) => None,
                Err(e) => Some(e),
            },
        }
    }
}

/// The terms of a list of results that are all terms.
pub open spec fn all_terms(parts: Seq<Result<Term, Error>>) -> Seq<Term> {
    Seq::new(parts.len(), |i: int| parts[i]->Ok_0)
}

/// The name that a term holds, where the term is a string literal.
pub open spec fn name_in(t: Term) -> Option<Seq<char>> {
    match t {
        Term::Literal(LiteralModel::String(s)) => Some(s),
        _ => None,
    }
}

/// The term that a node with this name and these parts stands for: a
/// constructor or an operand list of any parts; an eraser of no part; a
/// duplicator of two parts; a wire end, a label or an operator of one
/// part, which is its name as a string. Any other node stands for no term,
/// which is a schema mismatch at the number of its parts.
pub open spec fn term_of_node(name: Seq<char>, parts: Seq<Term>) -> Result<Term, Error> {
    if name == "Cons"@ {
        Ok(Term::Cons(parts))
    } else if name == "Args"@ {
        Ok(Term::Args(parts))
    } else if name == "Erase"@ && parts.len() == 0 {
        Ok(Term::Erase)
    } else if name == "Dup"@ && parts.len() == 2 {
        Ok(Term::Dup(Box::new(parts[0]), Box::new(parts[1])))
    } else if name == "Var"@ && parts.len() == 1 && name_in(parts[0]) is Some {
        Ok(Term::Var(name_in(parts[0])->0))
    } else if name == "Label"@ && parts.len() == 1 && name_in(parts[0]) is Some {
        Ok(Term::Label(name_in(parts[0])->0))
    } else if name == "Op"@ && parts.len() == 1 && name_in(parts[0]) is Some {
        Ok(Term::Op(name_in(parts[0])->0))
    } else {
        Err(Error::SchemaMismatch { position: parts.len() as usize })
    }
}

/// What a result of rebuilding amounts to: the term that was built, or the
/// error.
pub open spec fn built(out: Result<Expr, Error>) -> Result<Term, Error> {
    match out {
        Ok(e) => Ok(e@),
        Err(e) => Err(e),
    }
}

/// The borrowing visitor that builds a term from a graph. It copies the
/// leaves it is lent; a term holds no reference, so a leaf behind a
/// reference is copied as any other. A graph that is not the graph of a
/// term is a schema mismatch.
#[derive(Debug, Clone, Copy)]
pub struct Rebuilder;

/// Whether `name` spells `word`.
fn spells(name: &String, word: &str) -> (b: bool)
    ensures
        b == (name@ == word@),
{
    let other = String::from_str(word);
    *name == other
}

/// The one term of a list of one term, where it is a string literal: its
/// string.
fn take_name(parts: Vec<Expr>) -> (r: Option<String>)
    requires
        parts@.len() == 1,
    ensures
        r is Some <==> name_in(parts@[0]@) is Some,
        r matches Some(s) ==> name_in(parts@[0]@) == Some(s@),
{
    let mut parts = parts;
    match parts.pop() {
        Some(Expr::Literal(Literal::String(s))) => Some(s),
        _ => None,
    }
}

/// The term that a node with this name and these parts stands for.
fn node_term(name: &String, parts: Vec<Expr>) -> (r: Result<Expr, Error>)
    ensures
        built(r) == term_of_node(name@, terms(parts@)),
{
    let n = parts.len();
    if spells(name, "Cons") {
        proof {
            lemma_view_cons(parts);
        }
        Ok(Expr::Cons(parts))
    } else if spells(name, "Args") {
        proof {
            lemma_view_args(parts);
        }
        Ok(Expr::Args(parts))
    } else if spells(name, "Erase") && n == 0 {
        Ok(Expr::Erase)
    } else if spells(name, "Dup") && n == 2 {
        let mut parts = parts;
        let second = parts.pop();
        let first = parts.pop();
        match (first, second) {
            (Some(a), Some(b)) => Ok(Expr::Dup(Box::new(a), Box::new(b))),
            _ => Err(Error::SchemaMismatch { position: n }),
        }
    } else if spells(name, "Var") && n == 1 {
        match take_name(parts) {
            Some(s) => Ok(Expr::Var(s)),
            None => Err(Error::SchemaMismatch { position: n }),
        }
    } else if spells(name, "Label") && n == 1 {
        match take_name(parts) {
            Some(s) => Ok(Expr::Label(s)),
            None => Err(Error::SchemaMismatch { position: n }),
        }
    } else if spells(name, "Op") && n == 1 {
        match take_name(parts) {
            Some(s) => Ok(Expr::Op(s)),
            None => Err(Error::SchemaMismatch { position: n }),
        }
    } else {
        Err(Error::SchemaMismatch { position: n })
    }
}

impl Visitor<Literal> for Rebuilder {
    type Output = Result<Expr, Error>;

    type Summary = Result<Term, Error>;

    open spec fn summary(out: &Result<Expr, Error>) -> Result<Term, Error> {
        built(*out)
    }

    open spec fn primitive_seen(&self, prim: Primitive) -> Result<Term, Error> {
        match literal_of(prim) {
            Some(l) => Ok(Term::Literal(l)),
            None => Err(Error::SchemaMismatch { position: 0 }),
        }
    }

    open spec fn leaf_seen(&self, leaf: Literal) -> Result<Term, Error> {
        Ok(Term::Literal(leaf@))
    }

    open spec fn leaf_ref_seen(&self, id: Identity, leaf: Literal) -> Result<Term, Error> {
        Ok(Term::Literal(leaf@))
    }

    open spec fn composite_seen(&self, name: Seq<char>, parts: Seq<Result<Term, Error>>) -> Result<
        Term,
        Error,
    > {
        match first_error(parts, parts.len()) {
            Some(e) => Err(e),
            None => term_of_node(name, all_terms(parts)),
        }
    }

    open spec fn forked(&self) -> Rebuilder {
        *self
    }

    fn visited_primitive(self, prim: Primitive) -> (out: Result<Expr, Error>) {
        match Literal::from_primitive(prim) {
            Some(l) => Ok(Expr::Literal(l)),
            None => Err(Error::SchemaMismatch { position: 0 }),
        }
    }

    fn visited_leaf(self, leaf: &Literal) -> (out: Result<Expr, Error>) {
        Ok(Expr::Literal(leaf.duplicate()))
    }

    fn visited_leaf_ref(self, id: Identity, leaf: &Literal) -> (out: Result<Expr, Error>) {
        Ok(Expr::Literal(leaf.duplicate()))
    }

    fn visited_composite(self, info: &TypeInfo, parts: Vec<Result<Expr, Error>>) -> (out: Result<
        Expr,
        Error,
    >) {
        let ghost results = Seq::new(
            parts@.len(),
            |i: int| <Rebuilder as Visitor<Literal>>::summary(&parts@[i]),
        );
        let n = parts.len();
        let mut rest = reversed(parts);
        let mut items: Vec<Expr> = Vec::new();
        let mut i: usize = 0;
        while i < n
            invariant
                i <= n,
                n == parts@.len(),
                rest@.len() == n - i,
                results == Seq::new(
                    parts@.len(),
                    |i: int| <Rebuilder as Visitor<Literal>>::summary(&parts@[i]),
                ),
                forall|k: int| 0 <= k < rest@.len() ==> rest@[k] == parts@[n - 1 - k],
                first_error(results, i as nat) is None,
                items@.len() == i,
                forall|k: int| 0 <= k < i ==> results[k] == Ok::<Term, Error>(#[trigger] items@[k]@),
            decreases n - i,
        {
            match rest.pop() {
                Some(Ok(e)) => {
                    items.push(e);
                },
                Some(Err(e)) => {
                    proof {
                        assert(first_error(results, (i + 1) as nat) == Some(e));
                        lemma_first_error_stays(results, (i + 1) as nat, n as nat);
                    }
                    return Err(e);
                },
                None => {},
            }
            i += 1;
        }
        proof {
            assert(terms(items@) =~= all_terms(results));
        }
        node_term(info.name(), items)
    }

    fn fork(&self) -> (child: Rebuilder) {
        Rebuilder
    }
}

/// The first error among the first results of a list is the first error
/// among more of them.
proof fn lemma_first_error_stays(parts: Seq<Result<Term, Error>>, k: nat, n: nat)
    requires
        k <= n <= parts.len(),
        first_error(parts, k) is Some,
    ensures
        first_error(parts, n) == first_error(parts, k),
    decreases n,
{
    if n > k {
        lemma_first_error_stays(parts, k, (n - 1) as nat);
    }
}

/// A list of terms, as results, holds no error.
proof fn lemma_no_error(items: Seq<Term>, k: nat)
    requires
        k <= items.len(),
    ensures
        first_error(Seq::new(items.len(), |i: int| Ok::<Term, Error>(items[i])), k) is None,
    decreases k,
{
    if k > 0 {
        lemma_no_error(items, (k - 1) as nat);
    }
}

/// The names of the nodes that stand for terms differ from one another.
proof fn lemma_node_names_differ()
    ensures
        "Args"@ != "Cons"@,
        "Erase"@ != "Cons"@,
        "Erase"@ != "Args"@,
        "Dup"@ != "Cons"@,
        "Dup"@ != "Args"@,
        "Dup"@ != "Erase"@,
        "Var"@ != "Cons"@,
        "Var"@ != "Args"@,
        "Var"@ != "Erase"@,
        "Var"@ != "Dup"@,
        "Label"@ != "Cons"@,
        "Label"@ != "Args"@,
        "Label"@ != "Erase"@,
        "Label"@ != "Dup"@,
        "Label"@ != "Var"@,
        "Op"@ != "Cons"@,
        "Op"@ != "Args"@,
        "Op"@ != "Erase"@,
        "Op"@ != "Dup"@,
        "Op"@ != "Var"@,
        "Op"@ != "Label"@,
{
    reveal_strlit("Cons");
    reveal_strlit("Args");
    reveal_strlit("Erase");
    reveal_strlit("Dup");
    reveal_strlit("Var");
    reveal_strlit("Label");
    reveal_strlit("Op");
    assert("Cons"@.len() == 4 && "Cons"@[0] == 'C');
    assert("Args"@.len() == 4 && "Args"@[0] == 'A');
    assert("Erase"@.len() == 5 && "Erase"@[0] == 'E');
    assert("Dup"@.len() == 3 && "Dup"@[0] == 'D');
    assert("Var"@.len() == 3 && "Var"@[0] == 'V');
    assert("Label"@.len() == 5 && "Label"@[0] == 'L');
    assert("Op"@.len() == 2);
}

/// Rebuilding the graph of a term gives the term.
pub proof fn lemma_rebuilt(e: Expr)
    ensures
        visit_fold::<Literal, Rebuilder>(Rebuilder, graph_of(e)) == Ok::<Term, Error>(e@),
    decreases e,
{
    lemma_node_names_differ();
    match e {
        Expr::Literal(l) => {},
        Expr::Var(name) => {
            lemma_rebuilt_name("Var"@, name);
        },
        Expr::Label(name) => {
            lemma_rebuilt_name("Label"@, name);
        },
        Expr::Op(name) => {
            lemma_rebuilt_name("Op"@, name);
        },
        Expr::Erase => {
            let made = visit_fold_each::<Literal, Rebuilder>(Rebuilder, Seq::empty());
            assert(all_terms(made) =~= Seq::<Term>::empty());
        },
        Expr::Dup(a, b) => {
            lemma_rebuilt(*a);
            lemma_rebuilt(*b);
            let parts = seq![graph_of(*a), graph_of(*b)];
            let made = visit_fold_each::<Literal, Rebuilder>(Rebuilder, parts);
            assert(made =~= Seq::new(2, |i: int| Ok::<Term, Error>(seq![(*a)@, (*b)@][i])));
            lemma_no_error(seq![(*a)@, (*b)@], 2);
            assert(all_terms(made) =~= seq![(*a)@, (*b)@]);
        },
        Expr::Cons(items) => {
            lemma_view_cons(items);
            lemma_rebuilt_list(e, items);
            assert(graph_of(e)->Node_1 =~= graphs_of(items@));
        },
        Expr::Args(items) => {
            lemma_view_args(items);
            lemma_rebuilt_list(e, items);
            assert(graph_of(e)->Node_1 =~= graphs_of(items@));
        },
    }
}

/// Rebuilding the graph of a name gives the name.
proof fn lemma_rebuilt_name(kind: Seq<char>, name: String)
    ensures
        all_terms(
            visit_fold_each::<Literal, Rebuilder>(
                Rebuilder,
                seq![Tree::Leaf(Literal::String(name))],
            ),
        ) == seq![Term::Literal(LiteralModel::String(name@))],
        first_error(
            visit_fold_each::<Literal, Rebuilder>(
                Rebuilder,
                seq![Tree::Leaf(Literal::String(name))],
            ),
            1,
        ) is None,
{
    let made = visit_fold_each::<Literal, Rebuilder>(
        Rebuilder,
        seq![Tree::Leaf(Literal::String(name))],
    );
    assert(made[0] == Ok::<Term, Error>(Term::Literal(LiteralModel::String(name@))));
    assert(all_terms(made) =~= seq![Term::Literal(LiteralModel::String(name@))]);
    assert(first_error(made, 0) is None);
}

/// Rebuilding the graphs of the elements of a constructor, or of an
/// operand list, gives the elements.
proof fn lemma_rebuilt_list(e: Expr, items: Vec<Expr>)
    requires
        e == Expr::Cons(items) || e == Expr::Args(items),
    ensures
        all_terms(visit_fold_each::<Literal, Rebuilder>(Rebuilder, graphs_of(items@))) == terms(
            items@,
        ),
        first_error(
            visit_fold_each::<Literal, Rebuilder>(Rebuilder, graphs_of(items@)),
            items@.len(),
        ) is None,
    decreases e, 0nat,
{
    let made = visit_fold_each::<Literal, Rebuilder>(Rebuilder, graphs_of(items@));
    assert forall|i: int| 0 <= i < items@.len() implies #[trigger] made[i] == Ok::<Term, Error>(
        items@[i]@,
    ) by {
        if e is Cons {
            assert(decreases_to!(e => e->Cons_0));
        } else {
            assert(decreases_to!(e => e->Args_0));
        }
        assert(decreases_to!(items => items@[i]));
        lemma_rebuilt(items@[i]);
    }
    assert(made =~= Seq::new(terms(items@).len(), |i: int| Ok::<Term, Error>(terms(items@)[i])));
    lemma_no_error(terms(items@), items@.len());
    assert(all_terms(made) =~= terms(items@));
}

/// The graph of a term owns all its leaves.
pub proof fn lemma_term_owns_leaves(e: Expr)
    ensures
        owns_leaves(graph_of(e)),
    decreases e,
{
    match e {
        Expr::Cons(items) => {
            assert(graph_of(e)->Node_1 =~= graphs_of(items@));
            lemma_terms_own_leaves(e, items, items@.len());
        },
        Expr::Args(items) => {
            assert(graph_of(e)->Node_1 =~= graphs_of(items@));
            lemma_terms_own_leaves(e, items, items@.len());
        },
        Expr::Dup(a, b) => {
            lemma_term_owns_leaves(*a);
            lemma_term_owns_leaves(*b);
            let parts = graph_of(e)->Node_1;
            assert(own_leaves(parts, 0));
            assert(own_leaves(parts, 1));
            assert(own_leaves(parts, 2));
        },
        Expr::Var(_) => {
            lemma_name_owns_leaves(graph_of(e)->Node_1);
        },
        Expr::Label(_) => {
            lemma_name_owns_leaves(graph_of(e)->Node_1);
        },
        Expr::Op(_) => {
            lemma_name_owns_leaves(graph_of(e)->Node_1);
        },
        Expr::Erase => {
            assert(own_leaves(graph_of(e)->Node_1, 0));
        },
        Expr::Literal(_) => {},
    }
}

/// A list of one leaf owns its leaves.
proof fn lemma_name_owns_leaves(parts: Seq<Tree<Literal>>)
    requires
        parts.len() == 1,
        parts[0] is Leaf,
    ensures
        own_leaves(parts, 1),
{
    assert(owns_leaves(parts[0]));
    assert(own_leaves(parts, 0));
}

/// The graphs of the first `k` elements of a constructor, or of an operand
/// list, own all their leaves.
proof fn lemma_terms_own_leaves(e: Expr, items: Vec<Expr>, k: nat)
    requires
        e == Expr::Cons(items) || e == Expr::Args(items),
        k <= items@.len(),
    ensures
        own_leaves(graphs_of(items@), k),
    decreases e, k,
{
    if k > 0 {
        lemma_terms_own_leaves(e, items, (k - 1) as nat);
        if e is Cons {
            assert(decreases_to!(e => e->Cons_0));
        } else {
            assert(decreases_to!(e => e->Args_0));
        }
        assert(decreases_to!(items => items@[k - 1]));
        lemma_term_owns_leaves(items@[k - 1]);
    }
}

/// What serializing a term by value writes on an empty tape, deserializing
/// with the rebuilding visitor reads back as the same term.
pub proof fn lemma_round_trip(tape: Seq<Datum>, e: Expr)
    requires
        entries(tape) == taped(graph_of(e)),
    ensures
        parse(tape, 0, e.schema()) is Ok,
        parse(tape, 0, e.schema())->Ok_0.next == tape.len(),
        visit_fold::<Literal, Rebuilder>(Rebuilder, parse(tape, 0, e.schema())->Ok_0.tree)
            == Ok::<Term, Error>(e@),
{
    lemma_term_owns_leaves(e);
    lemma_written_is_read(tape, graph_of(e));
    lemma_rebuilt(e);
}

} // verus!
