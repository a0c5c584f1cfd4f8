use picoml::array::{Array, ArrayImpl, Dim, Shape};
use picoml::graph::{GraphModel, GraphSerialize};
use picoml::schema::{DataType, StructField, StructType};
use picoml::types::{Primitive, TypeInfo};
use picoml::visitors::{data_type_of, Census, Harvest, SchemaVisitor, Tally};
use picoml::vm::expr::{Expr, Literal};

fn big_array(fill: u8) -> Array {
    Array::new(ArrayImpl::U8(vec![fill; 4096]), Shape(vec![Dim::Fixed(64), Dim::Fixed(64)])).unwrap()
}

fn sample(fill: u8, name: &str) -> Expr {
    Expr::Cons(vec![
        Expr::Literal(Literal::Array(big_array(fill))),
        Expr::Literal(Literal::I32(-5)),
        Expr::Var(name.to_string()),
        Expr::Dup(Box::new(Expr::Erase), Box::new(Expr::Literal(Literal::String("s".to_string())))),
    ])
}

fn record(name: &str, parts: Vec<DataType>) -> DataType {
    DataType::Dataclass(StructType {
        info: TypeInfo::new(name.to_string()),
        fields: parts
            .into_iter()
            .enumerate()
            .map(|(i, ty)| StructField { name: i.to_string(), ty })
            .collect(),
    })
}

#[test]
fn the_schema_of_a_term_names_kinds_and_places_only() {
    let expected = record(
        "Cons",
        vec![
            DataType::Array(None, None),
            DataType::I32,
            record("Var", vec![DataType::Array(None, None)]),
            record("Dup", vec![record("Erase", vec![]), DataType::Array(None, None)]),
        ],
    );
    assert_eq!(data_type_of(&sample(0, "x")), expected);
    assert_eq!(sample(0, "x").visit_model(SchemaVisitor), expected);
}

#[test]
fn the_schema_does_not_depend_on_leaf_data() {
    let a = data_type_of(&sample(0, "x"));
    let b = data_type_of(&sample(255, "another name"));
    assert!(a.same_as(&b));
    assert_eq!(a, b);
}

#[test]
fn the_schema_of_every_kind_of_term() {
    assert_eq!(data_type_of(&Expr::Literal(Literal::Bool(true))), DataType::Bool);
    assert_eq!(data_type_of(&Expr::Literal(Literal::U64(1))), DataType::U64);
    assert_eq!(
        data_type_of(&Expr::Literal(Literal::String("t".to_string()))),
        DataType::Array(None, None)
    );
    assert_eq!(data_type_of(&Expr::Erase), record("Erase", vec![]));
    assert_eq!(
        data_type_of(&Expr::Label("l".to_string())),
        record("Label", vec![DataType::Array(None, None)])
    );
    assert_eq!(
        data_type_of(&Expr::Op("add".to_string())),
        record("Op", vec![DataType::Array(None, None)])
    );
    assert_eq!(
        data_type_of(&Expr::Args(vec![Expr::Literal(Literal::I8(1)), Expr::Literal(Literal::I8(2))])),
        record("Args", vec![DataType::I8, DataType::I8])
    );
}

#[test]
fn positions_are_written_in_decimal() {
    let items: Vec<Expr> = (0..12).map(|_| Expr::Erase).collect();
    match data_type_of(&Expr::Cons(items)) {
        DataType::Dataclass(st) => {
            let names: Vec<&str> = st.fields.iter().map(|f| f.name.as_str()).collect();
            assert_eq!(names, vec!["0", "1", "2", "3", "4", "5", "6", "7", "8", "9", "10", "11"]);
        }
        other => panic!("unexpected schema {:?}", other),
    }
}

#[test]
fn a_borrowing_visit_counts_without_taking() {
    let e = sample(1, "x");
    let tally = e.visit(Census);
    assert_eq!(tally, Tally { primitives: 1, leaves: 3, nodes: 4 });
    // The graph is still whole.
    assert_eq!(e, sample(1, "x"));
}

#[test]
fn an_owning_visit_hands_the_leaves_over() {
    let leaves = sample(9, "wire").visit_into(Harvest);
    assert_eq!(
        leaves,
        vec![
            Literal::Array(big_array(9)),
            Literal::String("wire".to_string()),
            Literal::String("s".to_string()),
        ]
    );
}

#[test]
fn an_owning_visit_of_scalars_hands_over_nothing() {
    let e = Expr::Args(vec![Expr::Literal(Literal::U8(1)), Expr::Literal(Literal::Bool(false))]);
    assert_eq!(e.visit_into(Harvest), Vec::<Literal>::new());
    let e = Expr::Args(vec![Expr::Literal(Literal::U8(1)), Expr::Literal(Literal::Bool(false))]);
    assert_eq!(e.visit(Census), Tally { primitives: 2, leaves: 0, nodes: 1 });
}

#[test]
fn literals_know_their_scalar() {
    assert_eq!(Literal::I16(-2).as_primitive(), Some(Primitive::I16(-2)));
    assert_eq!(Literal::Bool(true).as_primitive(), Some(Primitive::Bool(true)));
    assert_eq!(Literal::String("x".to_string()).as_primitive(), None);
    assert_eq!(Literal::Array(big_array(0)).as_primitive(), None);
}
