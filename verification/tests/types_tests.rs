use picoml::array::{Array, ArrayImpl, Dim, Shape};
use picoml::error::Error;
use picoml::schema::{DataType, StructField, StructType};
use picoml::types::{AsPrimitiveType, Primitive, PrimitiveType, Scalar, TypeInfo};

#[test]
fn every_primitive_reports_its_tag() {
    assert_eq!(Primitive::Bool(true).primitive_type(), PrimitiveType::Bool);
    assert_eq!(Primitive::I8(-1).primitive_type(), PrimitiveType::I8);
    assert_eq!(Primitive::I16(-1).primitive_type(), PrimitiveType::I16);
    assert_eq!(Primitive::I32(-1).primitive_type(), PrimitiveType::I32);
    assert_eq!(Primitive::I64(-1).primitive_type(), PrimitiveType::I64);
    assert_eq!(Primitive::U8(1).primitive_type(), PrimitiveType::U8);
    assert_eq!(Primitive::U16(1).primitive_type(), PrimitiveType::U16);
    assert_eq!(Primitive::U32(1).primitive_type(), PrimitiveType::U32);
    assert_eq!(Primitive::U64(1).primitive_type(), PrimitiveType::U64);
    assert_eq!(Primitive::F32(0).primitive_type(), PrimitiveType::F32);
    assert_eq!(Primitive::F64(0).primitive_type(), PrimitiveType::F64);
}

#[test]
fn rust_scalars_name_their_kind() {
    assert_eq!(<u8 as AsPrimitiveType>::as_primitive_type(), PrimitiveType::U8);
    assert_eq!(<bool as AsPrimitiveType>::as_primitive_type(), PrimitiveType::Bool);
    assert_eq!(<i64 as AsPrimitiveType>::as_primitive_type(), PrimitiveType::I64);
    assert_eq!(<u32 as AsPrimitiveType>::as_primitive_type(), PrimitiveType::U32);
}

#[test]
fn sizes_in_bytes() {
    assert_eq!(PrimitiveType::Bool.size_in_bytes(), 1);
    assert_eq!(PrimitiveType::U8.size_in_bytes(), 1);
    assert_eq!(PrimitiveType::I16.size_in_bytes(), 2);
    assert_eq!(PrimitiveType::F32.size_in_bytes(), 4);
    assert_eq!(PrimitiveType::U32.size_in_bytes(), 4);
    assert_eq!(PrimitiveType::I64.size_in_bytes(), 8);
    assert_eq!(PrimitiveType::F64.size_in_bytes(), 8);
}

#[test]
fn wrapping_a_value_always_succeeds() {
    assert_eq!(7u8.into_primitive(), Primitive::U8(7));
    assert_eq!((-7i32).into_primitive(), Primitive::I32(-7));
    assert_eq!(true.into_primitive(), Primitive::Bool(true));
    assert_eq!(u64::MAX.into_primitive(), Primitive::U64(u64::MAX));
}

#[test]
fn unwrapping_succeeds_for_the_matching_tag() {
    assert_eq!(u8::from_primitive(Primitive::U8(7)), Ok(7));
    assert_eq!(i16::from_primitive(Primitive::I16(-300)), Ok(-300));
    assert_eq!(bool::from_primitive(Primitive::Bool(false)), Ok(false));
}

#[test]
fn unwrapping_fails_with_both_tags_named() {
    assert_eq!(
        u8::from_primitive(Primitive::I8(7)),
        Err(Error::TypeMismatch { expected: PrimitiveType::U8, found: PrimitiveType::I8, at: None })
    );
    assert_eq!(
        bool::from_primitive(Primitive::U64(1)),
        Err(Error::TypeMismatch { expected: PrimitiveType::Bool, found: PrimitiveType::U64, at: None })
    );
    assert_eq!(
        u32::from_primitive(Primitive::F32(1)),
        Err(Error::TypeMismatch { expected: PrimitiveType::U32, found: PrimitiveType::F32, at: None })
    );
}

#[test]
fn floats_travel_as_bit_patterns() {
    let p = Primitive::from_f32_bits(2.5f32.to_bits());
    assert_eq!(p.primitive_type(), PrimitiveType::F32);
    assert_eq!(p.to_f32_bits().map(f32::from_bits), Ok(2.5f32));
    assert_eq!(
        p.to_f64_bits(),
        Err(Error::TypeMismatch { expected: PrimitiveType::F64, found: PrimitiveType::F32, at: None })
    );
    let q = Primitive::from_f64_bits((-1.0e100f64).to_bits());
    assert_eq!(q.to_f64_bits().map(f64::from_bits), Ok(-1.0e100f64));
    assert_eq!(
        Primitive::U32(3).to_f32_bits(),
        Err(Error::TypeMismatch { expected: PrimitiveType::F32, found: PrimitiveType::U32, at: None })
    );
}

#[test]
fn type_info_keeps_its_name() {
    let info = TypeInfo::new("Point".to_string());
    assert_eq!(info.name(), "Point");
    assert!(info.same_as(&TypeInfo::new("Point".to_string())));
    assert!(!info.same_as(&TypeInfo::new("point".to_string())));
    assert_eq!(info.duplicate(), info);
}

fn point() -> DataType {
    DataType::Dataclass(StructType {
        info: TypeInfo::new("Point".to_string()),
        fields: vec![
            StructField { name: "x".to_string(), ty: DataType::I32 },
            StructField { name: "y".to_string(), ty: DataType::I32 },
        ],
    })
}

#[test]
fn schemas_compare_part_by_part() {
    assert!(point().same_as(&point()));
    let renamed = DataType::Dataclass(StructType {
        info: TypeInfo::new("Pair".to_string()),
        fields: vec![
            StructField { name: "x".to_string(), ty: DataType::I32 },
            StructField { name: "y".to_string(), ty: DataType::I32 },
        ],
    });
    assert!(!point().same_as(&renamed));
    let other_field = DataType::Dataclass(StructType {
        info: TypeInfo::new("Point".to_string()),
        fields: vec![
            StructField { name: "x".to_string(), ty: DataType::I32 },
            StructField { name: "z".to_string(), ty: DataType::I32 },
        ],
    });
    assert!(!point().same_as(&other_field));
    let other_type = DataType::Dataclass(StructType {
        info: TypeInfo::new("Point".to_string()),
        fields: vec![
            StructField { name: "x".to_string(), ty: DataType::I32 },
            StructField { name: "y".to_string(), ty: DataType::I64 },
        ],
    });
    assert!(!point().same_as(&other_type));
}

#[test]
fn schemas_compare_through_nesting() {
    let a = DataType::Tuple(vec![DataType::List(vec![point(), DataType::Bytes]), DataType::String]);
    let b = DataType::Tuple(vec![DataType::List(vec![point(), DataType::Bytes]), DataType::String]);
    let c = DataType::Tuple(vec![DataType::List(vec![point(), DataType::Bool]), DataType::String]);
    let d = DataType::Tuple(vec![DataType::List(vec![point()]), DataType::String]);
    assert!(a.same_as(&b));
    assert!(!a.same_as(&c));
    assert!(!a.same_as(&d));
    assert!(!DataType::Tuple(vec![DataType::U8]).same_as(&DataType::List(vec![DataType::U8])));
    let m = DataType::Dict(vec![StructField { name: "k".to_string(), ty: DataType::F64 }]);
    let n = DataType::Dict(vec![StructField { name: "k".to_string(), ty: DataType::F32 }]);
    assert!(m.same_as(&m));
    assert!(!m.same_as(&n));
    assert!(DataType::Custom(TypeInfo::new("h".to_string()))
        .same_as(&DataType::Custom(TypeInfo::new("h".to_string()))));
    assert!(!DataType::Custom(TypeInfo::new("h".to_string())).same_as(&DataType::U8));
}

#[test]
fn array_schemas_compare_element_and_shape() {
    let shape = || Shape(vec![Dim::Fixed(2), Dim::Jagged]);
    let a = DataType::Array(Some(Box::new(DataType::U8)), Some(shape()));
    let b = DataType::Array(Some(Box::new(DataType::U8)), Some(shape()));
    let c = DataType::Array(Some(Box::new(DataType::U16)), Some(shape()));
    let d = DataType::Array(Some(Box::new(DataType::U8)), None);
    let e = DataType::Array(None, Some(shape()));
    assert!(a.same_as(&b));
    assert!(!a.same_as(&c));
    assert!(!a.same_as(&d));
    assert!(!a.same_as(&e));
    assert!(DataType::opaque_array().same_as(&DataType::Array(None, None)));
}

#[test]
fn scalar_schemas() {
    assert_eq!(DataType::scalar(PrimitiveType::Bool), DataType::Bool);
    assert_eq!(DataType::scalar(PrimitiveType::I8), DataType::I8);
    assert_eq!(DataType::scalar(PrimitiveType::U64), DataType::U64);
    assert_eq!(DataType::scalar(PrimitiveType::F32), DataType::F32);
    assert_eq!(DataType::scalar(PrimitiveType::F64), DataType::F64);
}

#[test]
fn an_array_schema_admits_arrays_that_fit_it() {
    let a = Array::new(
        ArrayImpl::I16(vec![1, 2, 3, 4, 5, 6]),
        Shape(vec![Dim::Fixed(2), Dim::Fixed(3)]),
    )
    .unwrap();
    let exact = DataType::of_array(&a);
    assert_eq!(
        exact,
        DataType::Array(
            Some(Box::new(DataType::I16)),
            Some(Shape(vec![Dim::Fixed(2), Dim::Fixed(3)]))
        )
    );
    assert!(exact.admits(&a));
    assert!(DataType::opaque_array().admits(&a));
    assert!(DataType::Array(Some(Box::new(DataType::I16)), None).admits(&a));
    assert!(!DataType::Array(Some(Box::new(DataType::I32)), None).admits(&a));
    assert!(!DataType::Array(None, Some(Shape(vec![Dim::Fixed(6)]))).admits(&a));
    assert!(!DataType::I16.admits(&a));
    assert!(!DataType::List(vec![DataType::I16]).admits(&a));
}
