use picoml::array::{Array, ArrayImpl, Dim, Shape};
use picoml::error::Error;
use picoml::graph::{GraphDeserializer, GraphSerialize, GraphSerializer, Ref, Shared, Visitor};
use picoml::identity::{Identity, Registry, Session};
use picoml::tape::{Datum, TapeReader, TapeWriter, Taping, TapingInto};
use picoml::types::{Primitive, PrimitiveType, TypeInfo};
use picoml::visitors::{outline_of, Census, Outline, Tally};
use picoml::vm::expr::{Expr, Literal, Net, Redex};
use picoml::vm::rebuild::Rebuilder;

fn array() -> Array {
    Array::new(ArrayImpl::I16(vec![1, -2, 3]), Shape(vec![Dim::Fixed(3)])).unwrap()
}

fn sample() -> Expr {
    Expr::Cons(vec![
        Expr::Literal(Literal::Array(array())),
        Expr::Literal(Literal::I32(-5)),
        Expr::Var("x".to_string()),
        Expr::Dup(Box::new(Expr::Erase), Box::new(Expr::Op("add".to_string()))),
    ])
}

fn sample_tape() -> Vec<Datum> {
    vec![
        Datum::Node("Cons".to_string(), 4),
        Datum::Leaf(Literal::Array(array())),
        Datum::Primitive(Primitive::I32(-5)),
        Datum::Node("Var".to_string(), 1),
        Datum::Leaf(Literal::String("x".to_string())),
        Datum::Node("Dup".to_string(), 2),
        Datum::Node("Erase".to_string(), 0),
        Datum::Node("Op".to_string(), 1),
        Datum::Leaf(Literal::String("add".to_string())),
    ]
}

/// A visitor that builds the term again from what it is shown.
struct Rebuild;

fn name_of(part: Option<Expr>) -> String {
    match part {
        Some(Expr::Literal(Literal::String(s))) => s,
        other => panic!("a name was expected, not {:?}", other),
    }
}

impl Visitor<Literal> for Rebuild {
    type Output = Expr;
    type Summary = ();

    fn visited_primitive(self, prim: Primitive) -> Expr {
        Expr::Literal(match prim {
            Primitive::Bool(v) => Literal::Bool(v),
            Primitive::U8(v) => Literal::U8(v),
            Primitive::U16(v) => Literal::U16(v),
            Primitive::U32(v) => Literal::U32(v),
            Primitive::U64(v) => Literal::U64(v),
            Primitive::I8(v) => Literal::I8(v),
            Primitive::I16(v) => Literal::I16(v),
            Primitive::I32(v) => Literal::I32(v),
            Primitive::I64(v) => Literal::I64(v),
            other => panic!("terms hold no {:?}", other),
        })
    }

    fn visited_leaf(self, leaf: &Literal) -> Expr {
        Expr::Literal(leaf.duplicate())
    }

    fn visited_leaf_ref(self, _id: Identity, leaf: &Literal) -> Expr {
        Expr::Literal(leaf.duplicate())
    }

    fn visited_composite(self, info: &TypeInfo, parts: Vec<Expr>) -> Expr {
        let mut parts = parts;
        match info.name().as_str() {
            "Cons" => Expr::Cons(parts),
            "Args" => Expr::Args(parts),
            "Erase" => Expr::Erase,
            "Var" => Expr::Var(name_of(parts.pop())),
            "Label" => Expr::Label(name_of(parts.pop())),
            "Op" => Expr::Op(name_of(parts.pop())),
            "Dup" => {
                let b = parts.pop().unwrap();
                let a = parts.pop().unwrap();
                Expr::Dup(Box::new(a), Box::new(b))
            }
            other => panic!("unknown node {}", other),
        }
    }

    fn fork(&self) -> Rebuild {
        Rebuild
    }
}

#[test]
fn a_term_is_written_head_first() {
    assert_eq!(sample().visit(Taping), sample_tape());
    assert_eq!(sample().visit_into(TapingInto), sample_tape());
}

#[test]
fn a_writer_puts_graphs_one_behind_the_other() {
    let mut w = TapeWriter::new();
    assert_eq!(w.serialize(&sample()), Ok(()));
    assert_eq!(w.len(), 9);
    assert_eq!(w.serialize_into(Expr::Literal(Literal::U8(7))), Ok(()));
    assert_eq!(w.len(), 10);
    let mut expected = sample_tape();
    expected.push(Datum::Primitive(Primitive::U8(7)));
    assert_eq!(w.into_tape(), expected);
}

#[test]
fn what_is_written_is_read_back() {
    let mut w = TapeWriter::new();
    w.serialize_into(sample()).unwrap();
    let mut r = TapeReader::new(w.into_tape());
    let model = sample();
    assert_eq!(r.deserialize(&model, Rebuild), Ok(sample()));
    assert_eq!(r.position(), 9);
    assert!(r.at_end());
}

#[test]
fn the_model_gives_the_shape_and_the_tape_the_data() {
    let mut w = TapeWriter::new();
    w.serialize(&sample()).unwrap();
    let mut r = TapeReader::new(w.into_tape());
    // Another term of the same shape: other array, other number, other names.
    let model = Expr::Cons(vec![
        Expr::Literal(Literal::String("not an array".to_string())),
        Expr::Literal(Literal::I32(0)),
        Expr::Var("another".to_string()),
        Expr::Dup(Box::new(Expr::Erase), Box::new(Expr::Op("mul".to_string()))),
    ]);
    assert_eq!(r.deserialize(&model, Rebuild), Ok(sample()));
}

#[test]
fn reading_drives_the_visitor_as_visiting_does() {
    let mut r = TapeReader::new(sample().visit_into(TapingInto));
    assert_eq!(r.deserialize(&sample(), Census), Ok(sample().visit(Census)));
    assert_eq!(sample().visit(Census), Tally { primitives: 1, leaves: 3, nodes: 5 });
}

#[test]
fn graphs_are_read_one_behind_the_other() {
    let mut w = TapeWriter::new();
    w.serialize_into(Expr::Literal(Literal::U8(1))).unwrap();
    w.serialize_into(Expr::Var("v".to_string())).unwrap();
    let mut r = TapeReader::new(w.into_tape());
    assert_eq!(
        r.deserialize(&Expr::Literal(Literal::U8(0)), Rebuild),
        Ok(Expr::Literal(Literal::U8(1)))
    );
    assert_eq!(r.position(), 1);
    assert!(!r.at_end());
    assert_eq!(
        r.deserialize(&Expr::Var(String::new()), Rebuild),
        Ok(Expr::Var("v".to_string()))
    );
    assert!(r.at_end());
    assert_eq!(
        r.deserialize(&Expr::Erase, Rebuild),
        Err(Error::MissingLeaf { position: 3 })
    );
}

#[test]
fn an_empty_tape_lacks_everything() {
    let mut r = TapeReader::new(vec![]);
    assert_eq!(r.deserialize(&sample(), Census), Err(Error::MissingLeaf { position: 0 }));
    assert_eq!(r.position(), 0);
}

#[test]
fn a_scalar_of_another_kind_is_a_type_mismatch() {
    let mut r = TapeReader::new(vec![Datum::Primitive(Primitive::U8(1))]);
    assert_eq!(
        r.deserialize(&Expr::Literal(Literal::I32(0)), Census),
        Err(Error::TypeMismatch {
            expected: PrimitiveType::I32,
            found: PrimitiveType::U8,
            at: Some(0)
        })
    );
    assert_eq!(r.position(), 0);
    assert_eq!(
        r.deserialize(&Expr::Literal(Literal::U8(0)), Census),
        Ok(Tally { primitives: 1, leaves: 0, nodes: 0 })
    );
}

#[test]
fn a_leaf_must_stand_where_the_shape_has_one() {
    let model = Expr::Literal(Literal::String(String::new()));
    let mut r = TapeReader::new(vec![Datum::Primitive(Primitive::U8(1))]);
    assert_eq!(r.deserialize(&model, Census), Err(Error::MissingLeaf { position: 0 }));
    let mut r = TapeReader::new(vec![Datum::Node("Erase".to_string(), 0)]);
    assert_eq!(r.deserialize(&model, Census), Err(Error::MissingLeaf { position: 0 }));
    let mut r = TapeReader::new(vec![Datum::Leaf(Literal::Array(array()))]);
    assert_eq!(r.deserialize(&model, Census), Ok(Tally { primitives: 0, leaves: 1, nodes: 0 }));
}

#[test]
fn a_tape_of_another_shape_is_a_schema_mismatch() {
    let scalar = Expr::Literal(Literal::U8(0));
    let mut r = TapeReader::new(vec![Datum::Leaf(Literal::String("s".to_string()))]);
    assert_eq!(r.deserialize(&scalar, Census), Err(Error::SchemaMismatch { position: 0 }));
    let mut r = TapeReader::new(vec![Datum::Node("Erase".to_string(), 0)]);
    assert_eq!(r.deserialize(&scalar, Census), Err(Error::SchemaMismatch { position: 0 }));

    let node = Expr::Cons(vec![Expr::Erase, Expr::Erase]);
    let other_name = vec![
        Datum::Node("Args".to_string(), 2),
        Datum::Node("Erase".to_string(), 0),
        Datum::Node("Erase".to_string(), 0),
    ];
    assert_eq!(
        TapeReader::new(other_name).deserialize(&node, Census),
        Err(Error::SchemaMismatch { position: 0 })
    );
    let other_count = vec![
        Datum::Node("Cons".to_string(), 3),
        Datum::Node("Erase".to_string(), 0),
        Datum::Node("Erase".to_string(), 0),
        Datum::Node("Erase".to_string(), 0),
    ];
    assert_eq!(
        TapeReader::new(other_count).deserialize(&node, Census),
        Err(Error::SchemaMismatch { position: 0 })
    );
    let no_head = vec![Datum::Primitive(Primitive::Bool(true))];
    assert_eq!(
        TapeReader::new(no_head).deserialize(&node, Census),
        Err(Error::SchemaMismatch { position: 0 })
    );
}

#[test]
fn an_error_names_the_place_on_the_tape() {
    let mut tape = sample_tape();
    tape[6] = Datum::Node("Cons".to_string(), 0);
    let mut r = TapeReader::new(tape);
    assert_eq!(r.deserialize(&sample(), Rebuild), Err(Error::SchemaMismatch { position: 6 }));
    assert_eq!(r.position(), 0);

    let mut tape = sample_tape();
    tape[2] = Datum::Primitive(Primitive::I64(-5));
    assert_eq!(
        TapeReader::new(tape).deserialize(&sample(), Rebuild),
        Err(Error::TypeMismatch {
            expected: PrimitiveType::I32,
            found: PrimitiveType::I64,
            at: Some(2)
        })
    );

    let mut tape = sample_tape();
    tape.truncate(8);
    assert_eq!(
        TapeReader::new(tape).deserialize(&sample(), Rebuild),
        Err(Error::MissingLeaf { position: 8 })
    );

    let mut tape = sample_tape();
    tape[4] = Datum::Primitive(Primitive::U8(0));
    assert_eq!(
        TapeReader::new(tape).deserialize(&sample(), Rebuild),
        Err(Error::MissingLeaf { position: 4 })
    );
}

#[test]
fn the_outline_of_a_term() {
    let leaf = || Outline::LeafRef;
    assert_eq!(
        outline_of(&sample()),
        Outline::Node(
            "Cons".to_string(),
            vec![
                leaf(),
                Outline::Primitive(PrimitiveType::I32),
                Outline::Node("Var".to_string(), vec![leaf()]),
                Outline::Node(
                    "Dup".to_string(),
                    vec![
                        Outline::Node("Erase".to_string(), vec![]),
                        Outline::Node("Op".to_string(), vec![leaf()]),
                    ]
                ),
            ]
        )
    );
}

#[test]
fn the_library_builds_a_term_again_from_its_tape() {
    let mut w = TapeWriter::new();
    w.serialize_into(sample()).unwrap();
    let mut r = TapeReader::new(w.into_tape());
    assert_eq!(r.deserialize(&sample(), Rebuilder), Ok(Ok(sample())));
    assert_eq!(sample().visit(Rebuilder), Ok(sample()));
}

#[test]
fn rebuilding_every_kind_of_term() {
    let terms = vec![
        Expr::Erase,
        Expr::Literal(Literal::Bool(true)),
        Expr::Literal(Literal::U64(u64::MAX)),
        Expr::Literal(Literal::I8(-1)),
        Expr::Literal(Literal::String(String::new())),
        Expr::Literal(Literal::Array(array())),
        Expr::Var("Cons".to_string()),
        Expr::Label("l".to_string()),
        Expr::Op("add".to_string()),
        Expr::Cons(vec![]),
        Expr::Args(vec![Expr::Erase, Expr::Cons(vec![Expr::Var("x".to_string())])]),
        Expr::Dup(Box::new(Expr::Args(vec![])), Box::new(Expr::Erase)),
    ];
    for t in terms {
        assert_eq!(t.visit(Rebuilder), Ok(t.duplicate()));
    }
}

#[test]
fn a_graph_that_is_no_term_is_not_rebuilt() {
    let read = |tape: Vec<Datum>, model: &Expr| {
        // The reader follows the model; the rebuilder judges what it is shown.
        TapeReader::new(tape).deserialize(model, Rebuilder)
    };
    // A float is no literal of a term.
    assert_eq!(Rebuilder.visited_primitive(Primitive::F32(0)), Err(Error::SchemaMismatch { position: 0 }));
    assert_eq!(Rebuilder.visited_primitive(Primitive::F64(0)), Err(Error::SchemaMismatch { position: 0 }));
    // An unknown node, and known nodes with the wrong parts.
    let info = |name: &str| TypeInfo::new(name.to_string());
    let unit = || Ok(Expr::Erase);
    let text = || Ok(Expr::Literal(Literal::String("n".to_string())));
    let mismatch = |n: usize| Err(Error::SchemaMismatch { position: n });
    assert_eq!(Rebuilder.visited_composite(&info("Pair"), vec![unit(), unit()]), mismatch(2));
    assert_eq!(Rebuilder.visited_composite(&info("Erase"), vec![unit()]), mismatch(1));
    assert_eq!(Rebuilder.visited_composite(&info("Dup"), vec![unit()]), mismatch(1));
    assert_eq!(Rebuilder.visited_composite(&info("Dup"), vec![unit(), unit(), unit()]), mismatch(3));
    assert_eq!(Rebuilder.visited_composite(&info("Var"), vec![unit()]), mismatch(1));
    assert_eq!(Rebuilder.visited_composite(&info("Var"), vec![]), mismatch(0));
    assert_eq!(Rebuilder.visited_composite(&info("Op"), vec![text(), text()]), mismatch(2));
    assert_eq!(Rebuilder.visited_composite(&info("Label"), vec![unit()]), mismatch(1));
    assert_eq!(
        Rebuilder.visited_composite(&info("Var"), vec![text()]),
        Ok(Expr::Var("n".to_string()))
    );
    // The first error among the parts is the error of the node.
    assert_eq!(
        Rebuilder.visited_composite(
            &info("Cons"),
            vec![unit(), Err(Error::MissingLeaf { position: 4 }), mismatch(9)]
        ),
        Err(Error::MissingLeaf { position: 4 })
    );
    assert_eq!(
        read(vec![Datum::Node("Erase".to_string(), 0)], &Expr::Erase),
        Ok(Ok(Expr::Erase))
    );
}

fn sample_net() -> Net {
    let mut net = Net::new(
        Expr::Var("r".to_string()),
        vec![
            Redex {
                lhs: Expr::Dup(Box::new(Expr::Erase), Box::new(Expr::Erase)),
                rhs: Expr::Cons(vec![Expr::Var("r".to_string())]),
            },
            Redex { lhs: Expr::Erase, rhs: Expr::Literal(Literal::U8(1)) },
        ],
    );
    net.step().unwrap();
    net
}

#[test]
fn a_net_is_written_with_its_worklist_and_its_wires() {
    let net = sample_net();
    assert_eq!(net.wires(), 2);
    assert_eq!(net.prefix(), 1);
    let tape = net.visit(Taping);
    let name = |s: &str| Datum::Leaf(Literal::String(s.to_string()));
    let node = |s: &str, n: usize| Datum::Node(s.to_string(), n);
    assert_eq!(
        tape,
        vec![
            node("Net", 4),
            node("Var", 1),
            name("r"),
            Datum::Primitive(Primitive::U64(2)),
            Datum::Primitive(Primitive::U64(1)),
            node("Worklist", 4),
            node("Redex", 2),
            node("Erase", 0),
            Datum::Primitive(Primitive::U8(1)),
            node("Redex", 2),
            node("Dup", 2),
            node("Var", 1),
            name("$0"),
            node("Var", 1),
            name("$1"),
            node("Var", 1),
            name("r"),
            node("Redex", 2),
            node("Cons", 1),
            node("Var", 1),
            name("$0"),
            node("Erase", 0),
            node("Redex", 2),
            node("Cons", 1),
            node("Var", 1),
            name("$1"),
            node("Erase", 0),
        ]
    );
    assert_eq!(sample_net().visit_into(TapingInto), tape);
    assert_eq!(net.visit(Census), Tally { primitives: 3, leaves: 6, nodes: 18 });
    let mut reader = TapeReader::new(tape);
    assert_eq!(reader.deserialize(&net, Census), Ok(net.visit(Census)));
    assert!(reader.at_end());
}

#[test]
fn a_redex_is_a_graph_of_its_two_sides() {
    let r = Redex { lhs: Expr::Erase, rhs: Expr::Literal(Literal::Bool(false)) };
    assert_eq!(
        r.visit(Taping),
        vec![
            Datum::Node("Redex".to_string(), 2),
            Datum::Node("Erase".to_string(), 0),
            Datum::Primitive(Primitive::Bool(false)),
        ]
    );
    assert_eq!(
        outline_of(&r),
        Outline::Node(
            "Redex".to_string(),
            vec![
                Outline::Node("Erase".to_string(), vec![]),
                Outline::Primitive(PrimitiveType::Bool)
            ]
        )
    );
    assert_eq!(r.visit_into(picoml::visitors::Harvest), Vec::<Literal>::new());
}

/// A visitor that lists the references it is shown: the token of each, and
/// a copy of its leaf.
struct References;

impl Visitor<Literal> for References {
    type Output = Vec<(u128, Literal)>;
    type Summary = ();

    fn visited_primitive(self, _prim: Primitive) -> Self::Output {
        Vec::new()
    }

    fn visited_leaf(self, _leaf: &Literal) -> Self::Output {
        Vec::new()
    }

    fn visited_leaf_ref(self, id: Identity, leaf: &Literal) -> Self::Output {
        vec![(id.0, leaf.duplicate())]
    }

    fn visited_composite(self, _info: &TypeInfo, parts: Vec<Self::Output>) -> Self::Output {
        parts.into_iter().flatten().collect()
    }

    fn fork(&self) -> References {
        References
    }
}

#[test]
fn a_reference_is_written_with_its_token() {
    let value = Literal::Array(array());
    let one = Shared::new(Identity(77), &value);
    assert_eq!(one.visit(Taping), vec![Datum::Shared(77, Literal::Array(array()))]);
    assert_eq!(one.share().visit_into(TapingInto), vec![Datum::Shared(77, Literal::Array(array()))]);
    assert_eq!(outline_of(&one), Outline::LeafRef);
    assert_eq!(one.visit(Census), Tally { primitives: 0, leaves: 1, nodes: 0 });
    // The leaf behind a reference is not the graph's to hand over.
    assert_eq!(one.visit_into(picoml::visitors::Harvest), Vec::<Literal>::new());
}

#[test]
fn a_list_of_graphs_is_a_graph() {
    let list = vec![Expr::Erase, Expr::Literal(Literal::U8(1))];
    assert_eq!(
        outline_of(&list),
        Outline::Node(
            "List".to_string(),
            vec![Outline::Node("Erase".to_string(), vec![]), Outline::Primitive(PrimitiveType::U8)]
        )
    );
    let tape = list.visit(Taping);
    assert_eq!(
        tape,
        vec![
            Datum::Node("List".to_string(), 2),
            Datum::Node("Erase".to_string(), 0),
            Datum::Primitive(Primitive::U8(1)),
        ]
    );
    assert_eq!(list.visit(Census), Tally { primitives: 1, leaves: 0, nodes: 2 });
    let nested = vec![vec![Expr::Erase], vec![]];
    assert_eq!(nested.visit(Census), Tally { primitives: 0, leaves: 0, nodes: 4 });
    assert_eq!(
        vec![Expr::Var("a".to_string()), Expr::Var("b".to_string())].visit_into(picoml::visitors::Harvest),
        vec![Literal::String("a".to_string()), Literal::String("b".to_string())]
    );
    assert_eq!(Vec::<Expr>::new().visit_into(TapingInto), vec![Datum::Node("List".to_string(), 0)]);
}

#[test]
fn shared_structure_comes_back_shared_within_a_session() {
    // A graph with two references to one value, and one to another.
    let shared_value = Literal::Array(array());
    let other_value = Literal::String("alone".to_string());
    let mut writing = Session::new();
    let shared_token = writing.fresh().expect("an empty session refuses no token");
    let other_token = loop {
        if let Some(id) = writing.fresh() {
            break id;
        }
    };
    let first = Shared::new(shared_token, &shared_value);
    let graph = vec![first.share(), Shared::new(other_token, &other_value), first];

    // Written: every reference carries its token.
    let mut writer = TapeWriter::new();
    assert_eq!(writer.serialize(&graph), Ok(()));
    let tape = writer.into_tape();
    assert_eq!(
        tape,
        vec![
            Datum::Node("List".to_string(), 3),
            Datum::Shared(shared_token.0, Literal::Array(array())),
            Datum::Shared(other_token.0, Literal::String("alone".to_string())),
            Datum::Shared(shared_token.0, Literal::Array(array())),
        ]
    );

    // Read, twice and independently. Each run has a session of its own.
    let mut runs: Vec<Vec<Identity>> = Vec::new();
    for _ in 0..2 {
        let mut reader = TapeReader::new(tape.iter().map(|d| match d {
            Datum::Shared(t, l) => Datum::Shared(*t, l.duplicate()),
            Datum::Node(n, k) => Datum::Node(n.clone(), *k),
            Datum::Leaf(l) => Datum::Leaf(l.duplicate()),
            Datum::Primitive(p) => Datum::Primitive(*p),
        }).collect());
        let seen = reader.deserialize(&graph, References).unwrap();
        assert!(reader.at_end());

        let mut session = Session::new();
        let mut registry = Registry::new();
        let mut arena: Vec<Literal> = Vec::new();
        let mut renamed: Vec<(u128, Identity)> = Vec::new();
        let mut rebuilt: Vec<(Identity, usize)> = Vec::new();
        for (token, leaf) in seen {
            let slot = match registry.target_of(token) {
                Some(slot) => slot,
                None => {
                    arena.push(leaf);
                    arena.len() - 1
                }
            };
            let id = if registry.resolve(token, slot).unwrap() {
                let id = loop {
                    if let Some(id) = session.fresh() {
                        break id;
                    }
                };
                renamed.push((token, id));
                id
            } else {
                renamed.iter().find(|(t, _)| *t == token).unwrap().1
            };
            rebuilt.push((id, slot));
        }
        let refs: Vec<Shared<Literal>> =
            rebuilt.iter().map(|(id, slot)| Shared::new(*id, &arena[*slot])).collect();

        // The two references to the shared value point to one value, equal to the
        // value that was written; the third reference points to the other value.
        assert_eq!(arena.len(), 2);
        assert_eq!(rebuilt[0].1, rebuilt[2].1);
        assert_eq!(refs[0].borrow(), refs[2].borrow());
        assert_eq!(refs[0].borrow(), &shared_value);
        assert_eq!(refs[1].borrow(), &other_value);
        assert_eq!(rebuilt[0].0, rebuilt[2].0);
        assert_ne!(rebuilt[0].0, rebuilt[1].0);
        assert_eq!(session.issued(), 2);
        runs.push(rebuilt.iter().map(|(id, _)| *id).collect());
    }
    // Within each run the tokens are consistent. Nothing is asked of the
    // tokens of one run against those of the other, or against the written ones.
    for run in &runs {
        assert_eq!(run[0], run[2]);
        assert_ne!(run[0], run[1]);
    }
}

#[test]
fn a_token_with_two_targets_is_caught_on_reading() {
    let tape = vec![
        Datum::Node("List".to_string(), 2),
        Datum::Shared(5, Literal::U8(1)),
        Datum::Shared(5, Literal::U8(2)),
    ];
    let a = Literal::U8(0);
    let model = vec![Shared::new(Identity(0), &a), Shared::new(Identity(0), &a)];
    let seen = TapeReader::new(tape).deserialize(&model, References).unwrap();
    let mut registry = Registry::new();
    let mut arena: Vec<Literal> = Vec::new();
    let mut outcome = Vec::new();
    for (token, leaf) in seen {
        let slot = match arena.iter().position(|l| *l == leaf) {
            Some(slot) => slot,
            None => {
                arena.push(leaf);
                arena.len() - 1
            }
        };
        outcome.push(registry.resolve(token, slot));
    }
    assert_eq!(outcome, vec![Ok(true), Err(Error::IdentityReuseViolation { token: 5 })]);
}
