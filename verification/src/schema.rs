//! Schemas: what a value is made of, without any value.

use vstd::prelude::*;

use crate::array::{Array, DimModel, Shape};
use crate::types::{PrimitiveType, TypeInfo};

verus! {

/// A schema: what a value is made of, without any value.
#[derive(Debug, PartialEq, Eq)]
pub enum DataType {
    /// A type that the host defines and that is opaque here.
    Custom(TypeInfo),
    /// A named record of named fields.
    Dataclass(StructType),
    /// A fixed list of schemas, one for each position.
    Tuple(Vec<DataType>),
    /// A list, with the schemas of its elements.
    List(Vec<DataType>),
    /// A map from names to schemas, in order.
    Dict(Vec<StructField>),
    /// An array. No element schema stands for an array whose elements are
    /// opaque; no shape stands for any shape.
    Array(Option<Box<DataType>>, Option<Shape>),
    Bool,
    Bytes,
    String,
    I8,
    I16,
    I32,
    I64,
    U8,
    U16,
    U32,
    U64,
    F32,
    F64,
}

/// One named field of a record or of a map.
#[derive(Debug, PartialEq, Eq)]
pub struct StructField {
    pub name: String,
    pub ty: DataType,
}

/// A named record: its display name and its fields in order.
#[derive(Debug, PartialEq, Eq)]
pub struct StructType {
    pub info: TypeInfo,
    pub fields: Vec<StructField>,
}

/// What a [`DataType`] says, as a mathematical value.
pub enum DataTypeModel {
    Custom(Seq<char>),
    Dataclass(Seq<char>, Seq<FieldModel>),
    Tuple(Seq<DataTypeModel>),
    List(Seq<DataTypeModel>),
    Dict(Seq<FieldModel>),
    Array(Option<Box<DataTypeModel>>, Option<Seq<DimModel>>),
    Bool,
    Bytes,
    String,
    I8,
    I16,
    I32,
    I64,
    U8,
    U16,
    U32,
    U64,
    F32,
    F64,
}

/// What a [`StructField`] says, as a mathematical value.
pub struct FieldModel {
    pub name: Seq<char>,
    pub ty: DataTypeModel,
}

/// The mathematical value of a schema.
pub open spec fn model_of(d: DataType) -> DataTypeModel
    decreases d,
{
    match d {
        DataType::Custom(info) => DataTypeModel::Custom(info@),
        DataType::Dataclass(st) => DataTypeModel::Dataclass(
            st.info@,
            Seq::new(
                st.fields@.len(),
                |i: int|
                    if 0 <= i < st.fields@.len() {
                        FieldModel { name: st.fields@[i].name@, ty: model_of(st.fields@[i].ty) }
                    } else {
                        FieldModel { name: Seq::empty(), ty: DataTypeModel::Bool }
                    },
            ),
        ),
        DataType::Tuple(items) => DataTypeModel::Tuple(
            Seq::new(
                items@.len(),
                |i: int|
                    if 0 <= i < items@.len() {
                        model_of(items@[i])
                    } else {
                        DataTypeModel::Bool
                    },
            ),
        ),
        DataType::List(items) => DataTypeModel::List(
            Seq::new(
                items@.len(),
                |i: int|
                    if 0 <= i < items@.len() {
                        model_of(items@[i])
                    } else {
                        DataTypeModel::Bool
                    },
            ),
        ),
        DataType::Dict(fields) => DataTypeModel::Dict(
            Seq::new(
                fields@.len(),
                |i: int|
                    if 0 <= i < fields@.len() {
                        FieldModel { name: fields@[i].name@, ty: model_of(fields@[i].ty) }
                    } else {
                        FieldModel { name: Seq::empty(), ty: DataTypeModel::Bool }
                    },
            ),
        ),
        DataType::Array(elem, shape) => DataTypeModel::Array(
            match elem {
                Some(e) => Some(Box::new(model_of(*e))),
                None => None,
            },
            match shape {
                Some(s) => Some(s@),
                None => None,
            },
        ),
        DataType::Bool => DataTypeModel::Bool,
        DataType::Bytes => DataTypeModel::Bytes,
        DataType::String => DataTypeModel::String,
        DataType::I8 => DataTypeModel::I8,
        DataType::I16 => DataTypeModel::I16,
        DataType::I32 => DataTypeModel::I32,
        DataType::I64 => DataTypeModel::I64,
        DataType::U8 => DataTypeModel::U8,
        DataType::U16 => DataTypeModel::U16,
        DataType::U32 => DataTypeModel::U32,
        DataType::U64 => DataTypeModel::U64,
        DataType::F32 => DataTypeModel::F32,
        DataType::F64 => DataTypeModel::F64,
    }
}

impl View for DataType {
    type V = DataTypeModel;

    open spec fn view(&self) -> DataTypeModel {
        model_of(*self)
    }
}

impl View for StructField {
    type V = FieldModel;

    open spec fn view(&self) -> FieldModel {
        FieldModel { name: self.name@, ty: self.ty@ }
    }
}

/// The views of a list of schemas.
pub open spec fn models(items: Seq<DataType>) -> Seq<DataTypeModel> {
    Seq::new(items.len(), |i: int| items[i]@)
}

/// The views of a list of fields.
pub open spec fn field_models(fields: Seq<StructField>) -> Seq<FieldModel> {
    Seq::new(fields.len(), |i: int| fields[i]@)
}

/// The schema of a scalar kind.
pub open spec fn scalar_model(ty: PrimitiveType) -> DataTypeModel {
    match ty {
        PrimitiveType::Bool => DataTypeModel::Bool,
        PrimitiveType::I8 => DataTypeModel::I8,
        PrimitiveType::I16 => DataTypeModel::I16,
        PrimitiveType::I32 => DataTypeModel::I32,
        PrimitiveType::I64 => DataTypeModel::I64,
        PrimitiveType::U8 => DataTypeModel::U8,
        PrimitiveType::U16 => DataTypeModel::U16,
        PrimitiveType::U32 => DataTypeModel::U32,
        PrimitiveType::U64 => DataTypeModel::U64,
        PrimitiveType::F32 => DataTypeModel::F32,
        PrimitiveType::F64 => DataTypeModel::F64,
    }
}

/// The view of a composite schema is the composite of the views of its parts.
pub proof fn lemma_view_parts(d: DataType)
    ensures
        d matches DataType::Tuple(items) ==> d@ == DataTypeModel::Tuple(models(items@)),
        d matches DataType::List(items) ==> d@ == DataTypeModel::List(models(items@)),
        d matches DataType::Dict(fields) ==> d@ == DataTypeModel::Dict(field_models(fields@)),
        d matches DataType::Dataclass(st) ==> d@ == DataTypeModel::Dataclass(
            st.info@,
            field_models(st.fields@),
        ),
{
    match d {
        DataType::Tuple(items) => {
            assert(d@->Tuple_0 =~= models(items@));
        },
        DataType::List(items) => {
            assert(d@->List_0 =~= models(items@));
        },
        DataType::Dict(fields) => {
            assert(d@->Dict_0 =~= field_models(fields@));
        },
        DataType::Dataclass(st) => {
            assert(d@->Dataclass_1 =~= field_models(st.fields@));
        },
        _ => {},
    }
}

impl DataType {
    /// The schema of a scalar kind.
    pub fn scalar(ty: PrimitiveType) -> (out: DataType)
        ensures
            out@ == scalar_model(ty),
    {
        match ty {
            PrimitiveType::Bool => DataType::Bool,
            PrimitiveType::I8 => DataType::I8,
            PrimitiveType::I16 => DataType::I16,
            PrimitiveType::I32 => DataType::I32,
            PrimitiveType::I64 => DataType::I64,
            PrimitiveType::U8 => DataType::U8,
            PrimitiveType::U16 => DataType::U16,
            PrimitiveType::U32 => DataType::U32,
            PrimitiveType::U64 => DataType::U64,
            PrimitiveType::F32 => DataType::F32,
            PrimitiveType::F64 => DataType::F64,
        }
    }

    /// The schema of an array whose elements are opaque and whose shape is
    /// left open: what a reference to a leaf looks like from outside.
    pub fn opaque_array() -> (out: DataType)
        ensures
            out@ == DataTypeModel::Array(None, None),
    {
        DataType::Array(None, None)
    }

    /// The schema of an array: the kind of its elements and its shape.
    pub fn of_array(a: &Array) -> (out: DataType)
        ensures
            out@ == DataTypeModel::Array(Some(Box::new(scalar_model(a@.dtype))), Some(a@.shape)),
    {
        DataType::Array(
            Some(Box::new(DataType::scalar(a.element_type()))),
            Some(a.shape().duplicate()),
        )
    }

    /// Whether this schema allows the array: whether it is an array schema
    /// whose element schema, where it names one, is the kind of the array's
    /// elements, and whose shape, where it names one, is the array's shape.
    /// No element of the array is read.
    pub fn admits(&self, a: &Array) -> (b: bool)
        ensures
            b == array_admitted(self@, a@.dtype, a@.shape),
    {
        match self {
            DataType::Array(elem, shape) => {
                let elem_ok = match elem {
                    Some(e) => {
                        let want = DataType::scalar(a.element_type());
                        e.same_as(&want)
                    },
                    None => true,
                };
                let shape_ok = match shape {
                    Some(s) => s.same_as(a.shape()),
                    None => true,
                };
                elem_ok && shape_ok
            },
            _ => false,
        }
    }

    /// Whether two schemas are the same, part by part. No value is looked at.
    pub fn same_as(&self, other: &DataType) -> (b: bool)
        ensures
            b == (self@ == other@),
        decreases self,
    {
        proof {
            lemma_view_parts(*self);
            lemma_view_parts(*other);
        }
        match (self, other) {
            (DataType::Custom(a), DataType::Custom(b)) => a.same_as(b),
            (DataType::Dataclass(a), DataType::Dataclass(b)) => {
                assert(decreases_to!(*self => self->Dataclass_0));
                assert(decreases_to!(self->Dataclass_0 => self->Dataclass_0.fields));
                a.info.same_as(&b.info) && same_fields(&a.fields, &b.fields)
            },
            (DataType::Tuple(a), DataType::Tuple(b)) => {
                assert(decreases_to!(*self => self->Tuple_0));
                same_schemas(a, b)
            },
            (DataType::List(a), DataType::List(b)) => {
                assert(decreases_to!(*self => self->List_0));
                same_schemas(a, b)
            },
            (DataType::Dict(a), DataType::Dict(b)) => {
                assert(decreases_to!(*self => self->Dict_0));
                same_fields(a, b)
            },
            (DataType::Array(ea, sa), DataType::Array(eb, sb)) => {
                let elems = match (ea, eb) {
                    (Some(x), Some(y)) => x.same_as(y),
                    (None, None) => true,
                    _ => false,
                };
                let shapes = match (sa, sb) {
                    (Some(x), Some(y)) => x.same_as(y),
                    (None, None) => true,
                    _ => false,
                };
                elems && shapes
            },
            (DataType::Bool, DataType::Bool) => true,
            (DataType::Bytes, DataType::Bytes) => true,
            (DataType::String, DataType::String) => true,
            (DataType::I8, DataType::I8) => true,
            (DataType::I16, DataType::I16) => true,
            (DataType::I32, DataType::I32) => true,
            (DataType::I64, DataType::I64) => true,
            (DataType::U8, DataType::U8) => true,
            (DataType::U16, DataType::U16) => true,
            (DataType::U32, DataType::U32) => true,
            (DataType::U64, DataType::U64) => true,
            (DataType::F32, DataType::F32) => true,
            (DataType::F64, DataType::F64) => true,
            _ => false,
        }
    }
}

/// Whether an array schema allows an array with elements of kind `dtype`
/// and the shape `shape`.
pub open spec fn array_admitted(schema: DataTypeModel, dtype: PrimitiveType, shape: Seq<DimModel>) -> bool {
    schema matches DataTypeModel::Array(elem, dims) && (elem matches Some(e) ==> *e == scalar_model(
        dtype,
    )) && (dims matches Some(d) ==> d == shape)
}

/// Whether two lists of schemas are the same.
fn same_schemas(a: &Vec<DataType>, b: &Vec<DataType>) -> (r: bool)
    ensures
        r == (models(a@) == models(b@)),
    decreases a,
{
    if a.len() != b.len() {
        assert(models(a@).len() != models(b@).len());
        return false;
    }
    let mut i: usize = 0;
    while i < a.len()
        invariant
            i <= a.len(),
            a.len() == b.len(),
            forall|k: int| 0 <= k < i ==> a@[k]@ == b@[k]@,
        decreases a.len() - i,
    {
        assert(decreases_to!(*a => a@[i as int]));
        if !a[i].same_as(&b[i]) {
            assert(models(a@)[i as int] != models(b@)[i as int]);
            return false;
        }
        i += 1;
    }
    assert(models(a@) =~= models(b@));
    true
}

/// Whether two lists of fields are the same.
fn same_fields(a: &Vec<StructField>, b: &Vec<StructField>) -> (r: bool)
    ensures
        r == (field_models(a@) == field_models(b@)),
    decreases a,
{
    if a.len() != b.len() {
        assert(field_models(a@).len() != field_models(b@).len());
        return false;
    }
    let mut i: usize = 0;
    while i < a.len()
        invariant
            i <= a.len(),
            a.len() == b.len(),
            forall|k: int| 0 <= k < i ==> a@[k]@ == b@[k]@,
        decreases a.len() - i,
    {
        assert(decreases_to!(*a => a@[i as int]));
        assert(decreases_to!(a@[i as int] => a@[i as int].ty));
        if !(a[i].name == b[i].name && a[i].ty.same_as(&b[i].ty)) {
            assert(field_models(a@)[i as int] != field_models(b@)[i as int]);
            return false;
        }
        i += 1;
    }
    assert(field_models(a@) =~= field_models(b@));
    true
}

} // verus!
