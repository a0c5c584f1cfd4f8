use picoml::graph::{GraphSerialize, Shared, Visitor};
use picoml::identity::Identity;
use picoml::types::{Primitive, TypeInfo};
use picoml::vm::expr::{Expr, Literal};

/// A visitor written outside the library: it writes a term down as text.
struct Printer;

impl Visitor<Literal> for Printer {
    type Output = String;
    type Summary = String;

    fn visited_primitive(self, prim: Primitive) -> String {
        format!("{:?}", prim)
    }

    fn visited_leaf(self, leaf: &Literal) -> String {
        match leaf {
            Literal::String(s) => format!("{:?}", s),
            Literal::Array(a) => format!("array[{}]", a.len()),
            other => format!("{:?}", other),
        }
    }

    fn visited_leaf_ref(self, id: Identity, leaf: &Literal) -> String {
        format!("&{}->{}", id.0, Printer.visited_leaf(leaf))
    }

    fn visited_composite(self, info: &TypeInfo, parts: Vec<String>) -> String {
        format!("{}({})", info.name(), parts.join(", "))
    }

    fn fork(&self) -> Printer {
        Printer
    }
}

#[test]
fn a_visitor_from_outside_composes_the_parts_itself() {
    let e = Expr::Cons(vec![
        Expr::Literal(Literal::U8(1)),
        Expr::Var("x".to_string()),
        Expr::Dup(Box::new(Expr::Erase), Box::new(Expr::Literal(Literal::String("s".to_string())))),
    ]);
    assert_eq!(e.visit(Printer), "Cons(U8(1), Var(\"x\"), Dup(Erase(), \"s\"))");
}

#[test]
fn a_visitor_from_outside_is_shown_references_as_references() {
    let leaf = Literal::String("s".to_string());
    let graph = vec![Shared::new(Identity(3), &leaf), Shared::new(Identity(3), &leaf)];
    assert_eq!(graph.visit(Printer), "List(&3->\"s\", &3->\"s\")");
}
