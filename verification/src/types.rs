//! Scalars: their kinds, the tagged union that holds one, and the Rust
//! types that convert to and from it.

use vstd::prelude::*;

use crate::error::Error;

verus! {

/// The tag of a scalar kind, without a value.
#[derive(Debug, Clone, Copy, PartialEq, Eq, Structural)]
pub enum PrimitiveType {
    Bool,
    I8,
    I16,
    I32,
    I64,
    U8,
    U16,
    U32,
    U64,
    F32,
    F64,
}

impl PrimitiveType {
    /// The number of bytes one value of this kind occupies.
    pub open spec fn width(self) -> nat {
        match self {
            PrimitiveType::Bool | PrimitiveType::I8 | PrimitiveType::U8 => 1,
            PrimitiveType::I16 | PrimitiveType::U16 => 2,
            PrimitiveType::I32 | PrimitiveType::U32 | PrimitiveType::F32 => 4,
            PrimitiveType::I64 | PrimitiveType::U64 | PrimitiveType::F64 => 8,
        }
    }

    pub open spec fn is_float(self) -> bool {
        self == PrimitiveType::F32 || self == PrimitiveType::F64
    }

    pub open spec fn is_integer(self) -> bool {
        self != PrimitiveType::Bool && !self.is_float()
    }

    pub fn size_in_bytes(self) -> (n: usize)
        ensures
            n == self.width(),
    {
        match self {
            PrimitiveType::Bool | PrimitiveType::I8 | PrimitiveType::U8 => 1,
            PrimitiveType::I16 | PrimitiveType::U16 => 2,
            PrimitiveType::I32 | PrimitiveType::U32 | PrimitiveType::F32 => 4,
            PrimitiveType::I64 | PrimitiveType::U64 | PrimitiveType::F64 => 8,
        }
    }
}

/// One scalar value with its tag. The two floating-point kinds hold the
/// IEEE-754 bit pattern of the value.
#[derive(Debug, Clone, Copy, PartialEq, Eq, Structural)]
pub enum Primitive {
    Bool(bool),
    I8(i8),
    I16(i16),
    I32(i32),
    I64(i64),
    U8(u8),
    U16(u16),
    U32(u32),
    U64(u64),
    F32(u32),
    F64(u64),
}

impl Primitive {
    /// The tag of the value, whatever the value is.
    pub open spec fn kind(self) -> PrimitiveType {
        match self {
            Primitive::Bool(_) => PrimitiveType::Bool,
            Primitive::I8(_) => PrimitiveType::I8,
            Primitive::I16(_) => PrimitiveType::I16,
            Primitive::I32(_) => PrimitiveType::I32,
            Primitive::I64(_) => PrimitiveType::I64,
            Primitive::U8(_) => PrimitiveType::U8,
            Primitive::U16(_) => PrimitiveType::U16,
            Primitive::U32(_) => PrimitiveType::U32,
            Primitive::U64(_) => PrimitiveType::U64,
            Primitive::F32(_) => PrimitiveType::F32,
            Primitive::F64(_) => PrimitiveType::F64,
        }
    }

    pub fn primitive_type(&self) -> (ty: PrimitiveType)
        ensures
            ty == self.kind(),
    {
        match self {
            Primitive::Bool(_) => PrimitiveType::Bool,
            Primitive::I8(_) => PrimitiveType::I8,
            Primitive::I16(_) => PrimitiveType::I16,
            Primitive::I32(_) => PrimitiveType::I32,
            Primitive::I64(_) => PrimitiveType::I64,
            Primitive::U8(_) => PrimitiveType::U8,
            Primitive::U16(_) => PrimitiveType::U16,
            Primitive::U32(_) => PrimitiveType::U32,
            Primitive::U64(_) => PrimitiveType::U64,
            Primitive::F32(_) => PrimitiveType::F32,
            Primitive::F64(_) => PrimitiveType::F64,
        }
    }

    /// A 32-bit float, given by its bit pattern.
    pub fn from_f32_bits(bits: u32) -> (p: Primitive)
        ensures
            p == Primitive::F32(bits),
    {
        Primitive::F32(bits)
    }

    /// A 64-bit float, given by its bit pattern.
    pub fn from_f64_bits(bits: u64) -> (p: Primitive)
        ensures
            p == Primitive::F64(bits),
    {
        Primitive::F64(bits)
    }

    /// The bit pattern of a 32-bit float; any other kind is a type mismatch.
    pub fn to_f32_bits(self) -> (r: Result<u32, Error>)
        ensures
            r == match self {
                Primitive::F32(bits) => Ok::<u32, Error>(bits),
                _ => Err(
                    Error::TypeMismatch {
                        expected: PrimitiveType::F32,
                        found: self.kind(),
                        at: None,
                    },
                ),
            },
    {
        match self {
            Primitive::F32(bits) => Ok(bits),
            _ => Err(
                Error::TypeMismatch {
                    expected: PrimitiveType::F32,
                    found: self.primitive_type(),
                    at: None,
                },
            ),
        }
    }

    /// The bit pattern of a 64-bit float; any other kind is a type mismatch.
    pub fn to_f64_bits(self) -> (r: Result<u64, Error>)
        ensures
            r == match self {
                Primitive::F64(bits) => Ok::<u64, Error>(bits),
                _ => Err(
                    Error::TypeMismatch {
                        expected: PrimitiveType::F64,
                        found: self.kind(),
                        at: None,
                    },
                ),
            },
    {
        match self {
            Primitive::F64(bits) => Ok(bits),
            _ => Err(
                Error::TypeMismatch {
                    expected: PrimitiveType::F64,
                    found: self.primitive_type(),
                    at: None,
                },
            ),
        }
    }
}

/// A Rust type that stands for one scalar kind.
pub trait AsPrimitiveType {
    /// The kind this type stands for.
    open spec fn scalar_kind() -> PrimitiveType {
        arbitrary()
    }

    fn as_primitive_type() -> (ty: PrimitiveType)
        ensures
            ty == Self::scalar_kind(),
    ;
}

/// A Rust scalar that converts to and from [`Primitive`].
///
/// Wrapping a value always succeeds. Unwrapping succeeds exactly when the
/// tag of the [`Primitive`] is the kind of the requested type.
pub trait Scalar: AsPrimitiveType + Sized {
    /// The tagged value that holds `self`.
    open spec fn wrapped(self) -> Primitive {
        arbitrary()
    }

    fn into_primitive(self) -> (p: Primitive)
        ensures
            p == self.wrapped(),
            p.kind() == Self::scalar_kind(),
    ;

    fn from_primitive(p: Primitive) -> (r: Result<Self, Error>)
        ensures
            r is Ok <==> p.kind() == Self::scalar_kind(),
            r matches Ok(v) ==> v.wrapped() == p,
            r matches Err(e) ==> e == (Error::TypeMismatch {
                expected: Self::scalar_kind(),
                found: p.kind(),
                at: None,
            }),
    ;
}

impl AsPrimitiveType for bool {
    open spec fn scalar_kind() -> PrimitiveType {
        PrimitiveType::Bool
    }

    fn as_primitive_type() -> PrimitiveType {
        PrimitiveType::Bool
    }
}

impl Scalar for bool {
    open spec fn wrapped(self) -> Primitive {
        Primitive::Bool(self)
    }

    fn into_primitive(self) -> Primitive {
        Primitive::Bool(self)
    }

    fn from_primitive(p: Primitive) -> Result<Self, Error> {
        match p {
            Primitive::Bool(v) => Ok(v),
            _ => Err(
                Error::TypeMismatch {
                    expected: PrimitiveType::Bool,
                    found: p.primitive_type(),
                    at: None,
                },
            ),
        }
    }
}

impl AsPrimitiveType for i8 {
    open spec fn scalar_kind() -> PrimitiveType {
        PrimitiveType::I8
    }

    fn as_primitive_type() -> PrimitiveType {
        PrimitiveType::I8
    }
}

impl Scalar for i8 {
    open spec fn wrapped(self) -> Primitive {
        Primitive::I8(self)
    }

    fn into_primitive(self) -> Primitive {
        Primitive::I8(self)
    }

    fn from_primitive(p: Primitive) -> Result<Self, Error> {
        match p {
            Primitive::I8(v) => Ok(v),
            _ => Err(
                Error::TypeMismatch {
                    expected: PrimitiveType::I8,
                    found: p.primitive_type(),
                    at: None,
                },
            ),
        }
    }
}

impl AsPrimitiveType for i16 {
    open spec fn scalar_kind() -> PrimitiveType {
        PrimitiveType::I16
    }

    fn as_primitive_type() -> PrimitiveType {
        PrimitiveType::I16
    }
}

impl Scalar for i16 {
    open spec fn wrapped(self) -> Primitive {
        Primitive::I16(self)
    }

    fn into_primitive(self) -> Primitive {
        Primitive::I16(self)
    }

    fn from_primitive(p: Primitive) -> Result<Self, Error> {
        match p {
            Primitive::I16(v) => Ok(v),
            _ => Err(
                Error::TypeMismatch {
                    expected: PrimitiveType::I16,
                    found: p.primitive_type(),
                    at: None,
                },
            ),
        }
    }
}

impl AsPrimitiveType for i32 {
    open spec fn scalar_kind() -> PrimitiveType {
        PrimitiveType::I32
    }

    fn as_primitive_type() -> PrimitiveType {
        PrimitiveType::I32
    }
}

impl Scalar for i32 {
    open spec fn wrapped(self) -> Primitive {
        Primitive::I32(self)
    }

    fn into_primitive(self) -> Primitive {
        Primitive::I32(self)
    }

    fn from_primitive(p: Primitive) -> Result<Self, Error> {
        match p {
            Primitive::I32(v) => Ok(v),
            _ => Err(
                Error::TypeMismatch {
                    expected: PrimitiveType::I32,
                    found: p.primitive_type(),
                    at: None,
                },
            ),
        }
    }
}

impl AsPrimitiveType for i64 {
    open spec fn scalar_kind() -> PrimitiveType {
        PrimitiveType::I64
    }

    fn as_primitive_type() -> PrimitiveType {
        PrimitiveType::I64
    }
}

impl Scalar for i64 {
    open spec fn wrapped(self) -> Primitive {
        Primitive::I64(self)
    }

    fn into_primitive(self) -> Primitive {
        Primitive::I64(self)
    }

    fn from_primitive(p: Primitive) -> Result<Self, Error> {
        match p {
            Primitive::I64(v) => Ok(v),
            _ => Err(
                Error::TypeMismatch {
                    expected: PrimitiveType::I64,
                    found: p.primitive_type(),
                    at: None,
                },
            ),
        }
    }
}

impl AsPrimitiveType for u8 {
    open spec fn scalar_kind() -> PrimitiveType {
        PrimitiveType::U8
    }

    fn as_primitive_type() -> PrimitiveType {
        PrimitiveType::U8
    }
}

impl Scalar for u8 {
    open spec fn wrapped(self) -> Primitive {
        Primitive::U8(self)
    }

    fn into_primitive(self) -> Primitive {
        Primitive::U8(self)
    }

    fn from_primitive(p: Primitive) -> Result<Self, Error> {
        match p {
            Primitive::U8(v) => Ok(v),
            _ => Err(
                Error::TypeMismatch {
                    expected: PrimitiveType::U8,
                    found: p.primitive_type(),
                    at: None,
                },
            ),
        }
    }
}

impl AsPrimitiveType for u16 {
    open spec fn scalar_kind() -> PrimitiveType {
        PrimitiveType::U16
    }

    fn as_primitive_type() -> PrimitiveType {
        PrimitiveType::U16
    }
}

impl Scalar for u16 {
    open spec fn wrapped(self) -> Primitive {
        Primitive::U16(self)
    }

    fn into_primitive(self) -> Primitive {
        Primitive::U16(self)
    }

    fn from_primitive(p: Primitive) -> Result<Self, Error> {
        match p {
            Primitive::U16(v) => Ok(v),
            _ => Err(
                Error::TypeMismatch {
                    expected: PrimitiveType::U16,
                    found: p.primitive_type(),
                    at: None,
                },
            ),
        }
    }
}

impl AsPrimitiveType for u32 {
    open spec fn scalar_kind() -> PrimitiveType {
        PrimitiveType::U32
    }

    fn as_primitive_type() -> PrimitiveType {
        PrimitiveType::U32
    }
}

impl Scalar for u32 {
    open spec fn wrapped(self) -> Primitive {
        Primitive::U32(self)
    }

    fn into_primitive(self) -> Primitive {
        Primitive::U32(self)
    }

    fn from_primitive(p: Primitive) -> Result<Self, Error> {
        match p {
            Primitive::U32(v) => Ok(v),
            _ => Err(
                Error::TypeMismatch {
                    expected: PrimitiveType::U32,
                    found: p.primitive_type(),
                    at: None,
                },
            ),
        }
    }
}

impl AsPrimitiveType for u64 {
    open spec fn scalar_kind() -> PrimitiveType {
        PrimitiveType::U64
    }

    fn as_primitive_type() -> PrimitiveType {
        PrimitiveType::U64
    }
}

impl Scalar for u64 {
    open spec fn wrapped(self) -> Primitive {
        Primitive::U64(self)
    }

    fn into_primitive(self) -> Primitive {
        Primitive::U64(self)
    }

    fn from_primitive(p: Primitive) -> Result<Self, Error> {
        match p {
            Primitive::U64(v) => Ok(v),
            _ => Err(
                Error::TypeMismatch {
                    expected: PrimitiveType::U64,
                    found: p.primitive_type(),
                    at: None,
                },
            ),
        }
    }
}

/// The display name of a schema.
#[derive(Debug, PartialEq, Eq)]
pub struct TypeInfo {
    name: String,
}

impl View for TypeInfo {
    type V = Seq<char>;

    closed spec fn view(&self) -> Seq<char> {
        self.name@
    }
}

impl TypeInfo {
    /// The type information with this display name.
    pub fn new(name: String) -> (info: TypeInfo)
        ensures
            info@ == name@,
    {
        TypeInfo { name }
    }

    /// The display name.
    pub fn name(&self) -> (name: &String)
        ensures
            name@ == self@,
    {
        &self.name
    }

    /// Whether two display names are the same.
    pub fn same_as(&self, other: &TypeInfo) -> (b: bool)
        ensures
            b == (self@ == other@),
    {
        self.name == other.name
    }

    /// A copy of this type information.
    pub fn duplicate(&self) -> (out: TypeInfo)
        ensures
            out@ == self@,
    {
        TypeInfo { name: self.name.clone() }
    }
}

} // verus!
