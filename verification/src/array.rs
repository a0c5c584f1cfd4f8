//! The array memory model: shapes, the typed buffers that hold the
//! elements, owned arrays, views into them, and arrays that are copied
//! when they are written.

use vstd::prelude::*;

use crate::error::Error;
use crate::types::{Primitive, PrimitiveType};

verus! {

/// One dimension of a shape.
#[derive(Debug, PartialEq, Eq)]
pub enum Dim {
    /// The extent is known when the shape is written down.
    Fixed(usize),
    /// The extent is bound when an array is built; dimensions that share a
    /// name share their extent.
    Var(String),
    /// The extent differs from one sub-array to the next.
    Jagged,
}

/// What a [`Dim`] says, as a mathematical value.
pub enum DimModel {
    Fixed(nat),
    Var(Seq<char>),
    Jagged,
}

impl View for Dim {
    type V = DimModel;

    open spec fn view(&self) -> DimModel {
        match self {
            Dim::Fixed(n) => DimModel::Fixed(*n as nat),
            Dim::Var(name) => DimModel::Var(name@),
            Dim::Jagged => DimModel::Jagged,
        }
    }
}

impl Dim {
    /// Whether two dimensions say the same.
    pub fn same_as(&self, other: &Dim) -> (b: bool)
        ensures
            b == (self@ == other@),
    {
        match (self, other) {
            (Dim::Fixed(a), Dim::Fixed(b)) => *a == *b,
            (Dim::Var(a), Dim::Var(b)) => *a == *b,
            (Dim::Jagged, Dim::Jagged) => true,
            _ => false,
        }
    }

    /// A copy of this dimension.
    pub fn duplicate(&self) -> (out: Dim)
        ensures
            out@ == self@,
    {
        match self {
            Dim::Fixed(n) => Dim::Fixed(*n),
            Dim::Var(name) => Dim::Var(name.clone()),
            Dim::Jagged => Dim::Jagged,
        }
    }
}

/// An ordered list of dimensions, outermost first.
#[derive(Debug, PartialEq, Eq)]
pub struct Shape(pub Vec<Dim>);

impl View for Shape {
    type V = Seq<DimModel>;

    open spec fn view(&self) -> Seq<DimModel> {
        Seq::new(self.0@.len(), |i: int| self.0@[i]@)
    }
}

impl Shape {
    /// The shape with the given dimensions.
    pub fn new(dims: Vec<Dim>) -> (shape: Shape)
        ensures
            shape.0 == dims,
    {
        Shape(dims)
    }

    /// The number of dimensions.
    pub fn rank(&self) -> (n: usize)
        ensures
            n == self@.len(),
    {
        self.0.len()
    }

    /// Whether two shapes say the same: whether they have the same
    /// dimensions in the same order.
    pub fn same_as(&self, other: &Shape) -> (b: bool)
        ensures
            b == (self@ == other@),
    {
        if self.0.len() != other.0.len() {
            assert(self@.len() != other@.len());
            return false;
        }
        let mut i: usize = 0;
        while i < self.0.len()
            invariant
                i <= self.0.len(),
                self.0.len() == other.0.len(),
                forall|k: int| 0 <= k < i ==> self@[k] == other@[k],
            decreases self.0.len() - i,
        {
            if !self.0[i].same_as(&other.0[i]) {
                assert(self@[i as int] != other@[i as int]);
                return false;
            }
            i += 1;
        }
        assert(self@ =~= other@);
        true
    }

    /// A copy of this shape.
    pub fn duplicate(&self) -> (out: Shape)
        ensures
            out@ == self@,
    {
        let mut dims: Vec<Dim> = Vec::new();
        let mut i: usize = 0;
        while i < self.0.len()
            invariant
                i <= self.0.len(),
                dims.len() == i,
                forall|k: int| 0 <= k < i ==> dims@[k]@ == self.0@[k]@,
            decreases self.0.len() - i,
        {
            dims.push(self.0[i].duplicate());
            i += 1;
        }
        let out = Shape(dims);
        assert(out@ =~= self@);
        out
    }
}

/// The concrete extent of one dimension of one array.
#[derive(Debug, PartialEq, Eq)]
pub enum Extent {
    /// Every sub-array has this many entries along the dimension.
    Uniform(usize),
    /// One length for each sub-array that the outer dimensions select, in
    /// row-major order.
    Ragged(Vec<usize>),
}

/// What an [`Extent`] says, as a mathematical value.
pub enum ExtentModel {
    Uniform(nat),
    Ragged(Seq<nat>),
}

/// The lengths of a ragged dimension as natural numbers.
pub open spec fn lengths(lens: Seq<usize>) -> Seq<nat> {
    Seq::new(lens.len(), |i: int| lens[i] as nat)
}

impl View for Extent {
    type V = ExtentModel;

    open spec fn view(&self) -> ExtentModel {
        match self {
            Extent::Uniform(n) => ExtentModel::Uniform(*n as nat),
            Extent::Ragged(lens) => ExtentModel::Ragged(lengths(lens@)),
        }
    }
}

/// The views of a list of extents.
pub open spec fn extent_models(exts: Seq<Extent>) -> Seq<ExtentModel> {
    Seq::new(exts.len(), |i: int| exts[i]@)
}

/// The sum of a list of lengths.
pub open spec fn total(lens: Seq<nat>) -> nat
    decreases lens.len(),
{
    if lens.len() == 0 {
        0
    } else {
        total(lens.drop_last()) + lens.last()
    }
}

/// The number of sub-arrays that the first `k` dimensions select: one for
/// no dimension; a uniform dimension multiplies the number by its extent; a
/// ragged dimension replaces it by the sum of its lengths.
pub open spec fn prefix_count(exts: Seq<ExtentModel>, k: nat) -> nat
    decreases k,
{
    if k == 0 {
        1
    } else {
        match exts[k - 1] {
            ExtentModel::Uniform(n) => prefix_count(exts, (k - 1) as nat) * n,
            ExtentModel::Ragged(lens) => total(lens),
        }
    }
}

/// The number of elements that an array with these extents holds.
pub open spec fn element_count(exts: Seq<ExtentModel>) -> nat {
    prefix_count(exts, exts.len())
}

/// Whether the extent at position `j` is one that the dimension there allows.
pub open spec fn extent_fits_at(dims: Seq<DimModel>, exts: Seq<ExtentModel>, j: int) -> bool {
    match (dims[j], exts[j]) {
        (DimModel::Fixed(n), ExtentModel::Uniform(m)) => n == m,
        (DimModel::Var(_), ExtentModel::Uniform(_)) => true,
        (DimModel::Jagged, ExtentModel::Ragged(lens)) => lens.len() == prefix_count(exts, j as nat),
        _ => false,
    }
}

/// Whether two positions that carry the same variable name carry the same extent.
pub open spec fn names_agree_at(dims: Seq<DimModel>, exts: Seq<ExtentModel>, i: int, j: int) -> bool {
    (dims[i] is Var && dims[j] is Var && dims[i]->Var_0 == dims[j]->Var_0) ==> exts[i] == exts[j]
}

/// Whether the extents are ones that the shape allows: a fixed dimension has
/// its own extent, a named dimension has one extent under each name, and a
/// ragged dimension has one length for each sub-array it divides.
pub open spec fn extents_fit(dims: Seq<DimModel>, exts: Seq<ExtentModel>) -> bool {
    &&& dims.len() == exts.len()
    &&& forall|j: int| 0 <= j < dims.len() ==> #[trigger] extent_fits_at(dims, exts, j)
    &&& forall|i: int, j: int|
        0 <= i < j < dims.len() ==> #[trigger] names_agree_at(dims, exts, i, j)
}

/// Whether every dimension of the shape is fixed.
pub open spec fn all_fixed(dims: Seq<DimModel>) -> bool {
    forall|j: int| 0 <= j < dims.len() ==> #[trigger] dims[j] is Fixed
}

/// The extents that a shape of fixed dimensions determines by itself.
pub open spec fn fixed_extents(dims: Seq<DimModel>) -> Seq<ExtentModel> {
    Seq::new(dims.len(), |j: int| ExtentModel::Uniform(dims[j]->Fixed_0))
}

/// The product of the dimensions of a shape whose dimensions are all fixed.
pub open spec fn fixed_product(dims: Seq<DimModel>) -> nat {
    element_count(fixed_extents(dims))
}

/// Copies the elements of `v` from `lo` up to `hi`.
fn copy_range_of<T: Copy>(v: &Vec<T>, lo: usize, hi: usize) -> (out: Vec<T>)
    requires
        lo <= hi <= v.len(),
    ensures
        out@ == v@.subrange(lo as int, hi as int),
{
    let mut out: Vec<T> = Vec::new();
    let mut i: usize = lo;
    while i < hi
        invariant
            lo <= i <= hi <= v.len(),
            out@ == v@.subrange(lo as int, i as int),
        decreases hi - i,
    {
        out.push(v[i]);
        i += 1;
        assert(out@ =~= v@.subrange(lo as int, i as int));
    }
    out
}

/// The storage of an array: one contiguous buffer of scalars of one kind.
/// The two floating-point kinds hold bit patterns.
#[derive(Debug, PartialEq, Eq)]
pub enum ArrayImpl {
    Bool(Vec<bool>),
    I8(Vec<i8>),
    I16(Vec<i16>),
    I32(Vec<i32>),
    I64(Vec<i64>),
    U8(Vec<u8>),
    U16(Vec<u16>),
    U32(Vec<u32>),
    U64(Vec<u64>),
    F32(Vec<u32>),
    F64(Vec<u64>),
}

impl ArrayImpl {
    /// The kind of every element.
    pub open spec fn dtype(&self) -> PrimitiveType {
        match self {
            ArrayImpl::Bool(_) => PrimitiveType::Bool,
            ArrayImpl::I8(_) => PrimitiveType::I8,
            ArrayImpl::I16(_) => PrimitiveType::I16,
            ArrayImpl::I32(_) => PrimitiveType::I32,
            ArrayImpl::I64(_) => PrimitiveType::I64,
            ArrayImpl::U8(_) => PrimitiveType::U8,
            ArrayImpl::U16(_) => PrimitiveType::U16,
            ArrayImpl::U32(_) => PrimitiveType::U32,
            ArrayImpl::U64(_) => PrimitiveType::U64,
            ArrayImpl::F32(_) => PrimitiveType::F32,
            ArrayImpl::F64(_) => PrimitiveType::F64,
        }
    }

    /// The elements in buffer order, each with its tag.
    pub open spec fn elements(&self) -> Seq<Primitive> {
        match self {
            ArrayImpl::Bool(v) => Seq::new(v@.len(), |i: int| Primitive::Bool(v@[i])),
            ArrayImpl::I8(v) => Seq::new(v@.len(), |i: int| Primitive::I8(v@[i])),
            ArrayImpl::I16(v) => Seq::new(v@.len(), |i: int| Primitive::I16(v@[i])),
            ArrayImpl::I32(v) => Seq::new(v@.len(), |i: int| Primitive::I32(v@[i])),
            ArrayImpl::I64(v) => Seq::new(v@.len(), |i: int| Primitive::I64(v@[i])),
            ArrayImpl::U8(v) => Seq::new(v@.len(), |i: int| Primitive::U8(v@[i])),
            ArrayImpl::U16(v) => Seq::new(v@.len(), |i: int| Primitive::U16(v@[i])),
            ArrayImpl::U32(v) => Seq::new(v@.len(), |i: int| Primitive::U32(v@[i])),
            ArrayImpl::U64(v) => Seq::new(v@.len(), |i: int| Primitive::U64(v@[i])),
            ArrayImpl::F32(v) => Seq::new(v@.len(), |i: int| Primitive::F32(v@[i])),
            ArrayImpl::F64(v) => Seq::new(v@.len(), |i: int| Primitive::F64(v@[i])),
        }
    }

    /// The number of elements in the buffer.
    pub fn len(&self) -> (n: usize)
        ensures
            n == self.elements().len(),
    {
        match self {
            ArrayImpl::Bool(v) => v.len(),
            ArrayImpl::I8(v) => v.len(),
            ArrayImpl::I16(v) => v.len(),
            ArrayImpl::I32(v) => v.len(),
            ArrayImpl::I64(v) => v.len(),
            ArrayImpl::U8(v) => v.len(),
            ArrayImpl::U16(v) => v.len(),
            ArrayImpl::U32(v) => v.len(),
            ArrayImpl::U64(v) => v.len(),
            ArrayImpl::F32(v) => v.len(),
            ArrayImpl::F64(v) => v.len(),
        }
    }

    /// The kind of every element, read from the buffer's tag alone.
    pub fn element_type(&self) -> (ty: PrimitiveType)
        ensures
            ty == self.dtype(),
    {
        match self {
            ArrayImpl::Bool(_) => PrimitiveType::Bool,
            ArrayImpl::I8(_) => PrimitiveType::I8,
            ArrayImpl::I16(_) => PrimitiveType::I16,
            ArrayImpl::I32(_) => PrimitiveType::I32,
            ArrayImpl::I64(_) => PrimitiveType::I64,
            ArrayImpl::U8(_) => PrimitiveType::U8,
            ArrayImpl::U16(_) => PrimitiveType::U16,
            ArrayImpl::U32(_) => PrimitiveType::U32,
            ArrayImpl::U64(_) => PrimitiveType::U64,
            ArrayImpl::F32(_) => PrimitiveType::F32,
            ArrayImpl::F64(_) => PrimitiveType::F64,
        }
    }

    /// The element at `i`, or nothing where the buffer ends before `i`.
    pub fn get(&self, i: usize) -> (r: Option<Primitive>)
        ensures
            r == if i < self.elements().len() {
                Some(self.elements()[i as int])
            } else {
                None
            },
    {
        if i >= self.len() {
            return None;
        }
        match self {
            ArrayImpl::Bool(v) => Some(Primitive::Bool(v[i])),
            ArrayImpl::I8(v) => Some(Primitive::I8(v[i])),
            ArrayImpl::I16(v) => Some(Primitive::I16(v[i])),
            ArrayImpl::I32(v) => Some(Primitive::I32(v[i])),
            ArrayImpl::I64(v) => Some(Primitive::I64(v[i])),
            ArrayImpl::U8(v) => Some(Primitive::U8(v[i])),
            ArrayImpl::U16(v) => Some(Primitive::U16(v[i])),
            ArrayImpl::U32(v) => Some(Primitive::U32(v[i])),
            ArrayImpl::U64(v) => Some(Primitive::U64(v[i])),
            ArrayImpl::F32(v) => Some(Primitive::F32(v[i])),
            ArrayImpl::F64(v) => Some(Primitive::F64(v[i])),
        }
    }

    /// Writes `value` at `i`. A value of another kind than the buffer's is a
    /// type mismatch; an index past the end is a shape mismatch; either
    /// leaves the buffer as it was.
    pub fn set(&mut self, i: usize, value: Primitive) -> (r: Result<(), Error>)
        ensures
            r == if value.kind() != old(self).dtype() {
                Err::<(), Error>(
                    Error::TypeMismatch { expected: old(self).dtype(), found: value.kind(), at: None },
                )
            } else if i >= old(self).elements().len() {
                Err(Error::ShapeMismatch)
            } else {
                Ok(())
            },
            final(self).dtype() == old(self).dtype(),
            r is Ok ==> final(self).elements() == old(self).elements().update(i as int, value),
            r is Err ==> final(self).elements() == old(self).elements(),
    {
        let expected = self.element_type();
        let found = value.primitive_type();
        if expected != found {
            return Err(Error::TypeMismatch { expected, found, at: None });
        }
        if i >= self.len() {
            return Err(Error::ShapeMismatch);
        }
        self.write(i, value);
        Ok(())
    }

    /// Writes `value` at `i`, where both are in order.
    fn write(&mut self, i: usize, value: Primitive)
        requires
            i < old(self).elements().len(),
            value.kind() == old(self).dtype(),
        ensures
            final(self).dtype() == old(self).dtype(),
            final(self).elements() == old(self).elements().update(i as int, value),
        no_unwind
    {
        match self {
            ArrayImpl::Bool(v) => match value {
                Primitive::Bool(x) => {
                    v[i] = x;
                },
                _ => {},
            },
            ArrayImpl::I8(v) => match value {
                Primitive::I8(x) => {
                    v[i] = x;
                },
                _ => {},
            },
            ArrayImpl::I16(v) => match value {
                Primitive::I16(x) => {
                    v[i] = x;
                },
                _ => {},
            },
            ArrayImpl::I32(v) => match value {
                Primitive::I32(x) => {
                    v[i] = x;
                },
                _ => {},
            },
            ArrayImpl::I64(v) => match value {
                Primitive::I64(x) => {
                    v[i] = x;
                },
                _ => {},
            },
            ArrayImpl::U8(v) => match value {
                Primitive::U8(x) => {
                    v[i] = x;
                },
                _ => {},
            },
            ArrayImpl::U16(v) => match value {
                Primitive::U16(x) => {
                    v[i] = x;
                },
                _ => {},
            },
            ArrayImpl::U32(v) => match value {
                Primitive::U32(x) => {
                    v[i] = x;
                },
                _ => {},
            },
            ArrayImpl::U64(v) => match value {
                Primitive::U64(x) => {
                    v[i] = x;
                },
                _ => {},
            },
            ArrayImpl::F32(v) => match value {
                Primitive::F32(x) => {
                    v[i] = x;
                },
                _ => {},
            },
            ArrayImpl::F64(v) => match value {
                Primitive::F64(x) => {
                    v[i] = x;
                },
                _ => {},
            },
        }
        assert(final(self).elements() =~= old(self).elements().update(i as int, value));
    }

    /// A new buffer that holds copies of the elements from `lo` up to `hi`.
    fn copy_range(&self, lo: usize, hi: usize) -> (out: ArrayImpl)
        requires
            lo <= hi <= self.elements().len(),
        ensures
            out.dtype() == self.dtype(),
            out.elements() == self.elements().subrange(lo as int, hi as int),
    {
        let out = match self {
            ArrayImpl::Bool(v) => ArrayImpl::Bool(copy_range_of(v, lo, hi)),
            ArrayImpl::I8(v) => ArrayImpl::I8(copy_range_of(v, lo, hi)),
            ArrayImpl::I16(v) => ArrayImpl::I16(copy_range_of(v, lo, hi)),
            ArrayImpl::I32(v) => ArrayImpl::I32(copy_range_of(v, lo, hi)),
            ArrayImpl::I64(v) => ArrayImpl::I64(copy_range_of(v, lo, hi)),
            ArrayImpl::U8(v) => ArrayImpl::U8(copy_range_of(v, lo, hi)),
            ArrayImpl::U16(v) => ArrayImpl::U16(copy_range_of(v, lo, hi)),
            ArrayImpl::U32(v) => ArrayImpl::U32(copy_range_of(v, lo, hi)),
            ArrayImpl::U64(v) => ArrayImpl::U64(copy_range_of(v, lo, hi)),
            ArrayImpl::F32(v) => ArrayImpl::F32(copy_range_of(v, lo, hi)),
            ArrayImpl::F64(v) => ArrayImpl::F64(copy_range_of(v, lo, hi)),
        };
        assert(out.elements() =~= self.elements().subrange(lo as int, hi as int));
        out
    }
}

/// The sum of a prefix of a list of lengths is at most the sum of the list.
proof fn lemma_total_prefix(lens: Seq<nat>, i: int)
    requires
        0 <= i <= lens.len(),
    ensures
        total(lens.take(i)) <= total(lens),
    decreases lens.len(),
{
    if i == lens.len() {
        assert(lens.take(i) =~= lens);
    } else {
        lemma_total_prefix(lens.drop_last(), i);
        assert(lens.drop_last().take(i) =~= lens.take(i));
    }
}

/// The sum of the lengths, or nothing where the sum is past `usize::MAX`.
fn sum_lengths(lens: &Vec<usize>) -> (r: Option<usize>)
    ensures
        match r {
            Some(s) => s == total(lengths(lens@)),
            None => total(lengths(lens@)) > usize::MAX,
        },
{
    let ghost all = lengths(lens@);
    let mut acc: usize = 0;
    let mut i: usize = 0;
    while i < lens.len()
        invariant
            i <= lens.len(),
            all == lengths(lens@),
            acc == total(all.take(i as int)),
        decreases lens.len() - i,
    {
        proof {
            assert(all.take(i + 1).drop_last() =~= all.take(i as int));
            assert(all.take(i + 1).last() == lens@[i as int] as nat);
        }
        match acc.checked_add(lens[i]) {
            Some(s) => {
                acc = s;
            },
            None => {
                proof {
                    lemma_total_prefix(all, i + 1);
                }
                return None;
            },
        }
        i += 1;
    }
    proof {
        assert(all.take(i as int) =~= all);
    }
    Some(acc)
}

/// Whether both dimensions are named, and by the same name.
fn same_name(a: &Dim, b: &Dim) -> (r: bool)
    ensures
        r == (a@ is Var && b@ is Var && a@->Var_0 == b@->Var_0),
{
    match a {
        Dim::Var(x) => match b {
            Dim::Var(y) => *x == *y,
            _ => false,
        },
        _ => false,
    }
}

/// Whether the extents are ones that the shape allows and give `len` elements.
fn extents_match(shape: &Shape, extents: &Vec<Extent>, len: usize) -> (ok: bool)
    ensures
        ok == (extents_fit(shape@, extent_models(extents@)) && element_count(
            extent_models(extents@),
        ) == len),
{
    let ghost dims = shape@;
    let ghost exts = extent_models(extents@);
    let n = shape.0.len();
    if extents.len() != n {
        return false;
    }
    let mut count: usize = 1;
    let mut big = false;
    let mut j: usize = 0;
    while j < n
        invariant
            j <= n,
            n == shape.0.len(),
            n == extents.len(),
            dims == shape@,
            exts == extent_models(extents@),
            forall|k: int| 0 <= k < j ==> #[trigger] extent_fits_at(dims, exts, k),
            !big ==> count == prefix_count(exts, j as nat),
            big ==> prefix_count(exts, j as nat) > usize::MAX,
        decreases n - j,
    {
        let ghost before = prefix_count(exts, j as nat);
        match &extents[j] {
            Extent::Uniform(m) => {
                match &shape.0[j] {
                    Dim::Fixed(a) => {
                        if *a != *m {
                            assert(!extent_fits_at(dims, exts, j as int));
                            return false;
                        }
                    },
                    Dim::Var(_) => {},
                    Dim::Jagged => {
                        assert(!extent_fits_at(dims, exts, j as int));
                        return false;
                    },
                }
                assert(prefix_count(exts, (j + 1) as nat) == before * (*m as nat));
                if big {
                    if *m == 0 {
                        count = 0;
                        big = false;
                        assert(before * 0 == 0) by (nonlinear_arith);
                    } else {
                        assert(before * (*m as nat) >= before) by (nonlinear_arith)
                            requires
                                *m >= 1,
                        ;
                    }
                } else {
                    match count.checked_mul(*m) {
                        Some(c) => {
                            count = c;
                        },
                        None => {
                            big = true;
                        },
                    }
                }
            },
            Extent::Ragged(lens) => {
                match &shape.0[j] {
                    Dim::Jagged => {},
                    _ => {
                        assert(!extent_fits_at(dims, exts, j as int));
                        return false;
                    },
                }
                if big || lens.len() != count {
                    assert(exts[j as int] == ExtentModel::Ragged(lengths(lens@)));
                    assert(lengths(lens@).len() == lens.len());
                    assert(!extent_fits_at(dims, exts, j as int));
                    return false;
                }
                assert(prefix_count(exts, (j + 1) as nat) == total(lengths(lens@)));
                match sum_lengths(lens) {
                    Some(s) => {
                        count = s;
                    },
                    None => {
                        big = true;
                    },
                }
            },
        }
        assert(extent_fits_at(dims, exts, j as int));
        j += 1;
    }
    if big || count != len {
        return false;
    }
    let mut j: usize = 0;
    while j < n
        invariant
            j <= n,
            n == shape.0.len(),
            n == extents.len(),
            dims == shape@,
            exts == extent_models(extents@),
            forall|k: int| 0 <= k < n ==> #[trigger] extent_fits_at(dims, exts, k),
            forall|a: int, b: int| 0 <= a < b < j ==> #[trigger] names_agree_at(dims, exts, a, b),
        decreases n - j,
    {
        let mut i: usize = 0;
        while i < j
            invariant
                i <= j < n,
                n == shape.0.len(),
                n == extents.len(),
                dims == shape@,
                exts == extent_models(extents@),
                forall|k: int| 0 <= k < n ==> #[trigger] extent_fits_at(dims, exts, k),
                forall|a: int| 0 <= a < i ==> #[trigger] names_agree_at(dims, exts, a, j as int),
            decreases j - i,
        {
            if same_name(&shape.0[i], &shape.0[j]) {
                assert(extent_fits_at(dims, exts, i as int));
                assert(extent_fits_at(dims, exts, j as int));
                match &extents[i] {
                    Extent::Uniform(a) => match &extents[j] {
                        Extent::Uniform(b) => {
                            if *a != *b {
                                assert(!names_agree_at(dims, exts, i as int, j as int));
                                return false;
                            }
                        },
                        Extent::Ragged(_) => {},
                    },
                    Extent::Ragged(_) => {},
                }
            }
            assert(names_agree_at(dims, exts, i as int, j as int));
            i += 1;
        }
        j += 1;
    }
    true
}

impl Extent {
    /// A copy of this extent.
    pub fn duplicate(&self) -> (out: Extent)
        ensures
            out@ == self@,
    {
        match self {
            Extent::Uniform(n) => Extent::Uniform(*n),
            Extent::Ragged(lens) => {
                let copy = copy_range_of(lens, 0, lens.len());
                assert(copy@ =~= lens@);
                Extent::Ragged(copy)
            },
        }
    }
}

/// Copies a list of extents.
fn duplicate_extents(extents: &Vec<Extent>) -> (out: Vec<Extent>)
    ensures
        extent_models(out@) == extent_models(extents@),
{
    let mut out: Vec<Extent> = Vec::new();
    let mut i: usize = 0;
    while i < extents.len()
        invariant
            i <= extents.len(),
            out.len() == i,
            forall|k: int| 0 <= k < i ==> out@[k]@ == extents@[k]@,
        decreases extents.len() - i,
    {
        out.push(extents[i].duplicate());
        i += 1;
    }
    assert(extent_models(out@) =~= extent_models(extents@));
    out
}

/// What an array is, as a mathematical value: its shape, the concrete
/// extent of each dimension, the kind of its elements, and the elements in
/// buffer order.
pub struct ArrayModel {
    pub shape: Seq<DimModel>,
    pub extents: Seq<ExtentModel>,
    pub dtype: PrimitiveType,
    pub elements: Seq<Primitive>,
}

/// The smaller of two natural numbers.
pub open spec fn lesser(a: nat, b: nat) -> nat {
    if a <= b {
        a
    } else {
        b
    }
}

impl ArrayModel {
    /// The invariant of every array: the extents are ones that the shape
    /// allows, and the buffer holds exactly the elements they call for.
    pub open spec fn consistent(self) -> bool {
        &&& extents_fit(self.shape, self.extents)
        &&& element_count(self.extents) == self.elements.len()
    }

    /// The upper end of the window that `start` and `end` select: `end`, cut
    /// back to the number of elements.
    pub open spec fn window_end(self, end: nat) -> nat {
        lesser(end, self.elements.len())
    }

    /// The lower end of the window that `start` and `end` select: `start`,
    /// cut back to the window's upper end.
    pub open spec fn window_start(self, start: nat, end: nat) -> nat {
        lesser(start, self.window_end(end))
    }

    /// The one-dimensional array of the elements from `start` up to `end`,
    /// both cut back to what the buffer holds.
    pub open spec fn window(self, start: nat, end: nat) -> ArrayModel {
        let hi = self.window_end(end);
        let lo = self.window_start(start, end);
        ArrayModel {
            shape: seq![DimModel::Fixed((hi - lo) as nat)],
            extents: seq![ExtentModel::Uniform((hi - lo) as nat)],
            dtype: self.dtype,
            elements: self.elements.subrange(lo as int, hi as int),
        }
    }
}

/// Whether the array binds the dimension name `name` to the extent `n`:
/// whether a dimension of its shape has the name and the extent.
pub open spec fn binds(m: ArrayModel, name: Seq<char>, n: nat) -> bool {
    exists|i: int|
        0 <= i < m.shape.len() && #[trigger] m.shape[i] == DimModel::Var(name) && m.extents[i]
            == ExtentModel::Uniform(n)
}

/// Whether the dimension `i` of one array and the dimension `j` of another,
/// where they have the same name, have the same extent.
pub open spec fn agree_at(a: ArrayModel, b: ArrayModel, i: int, j: int) -> bool {
    (a.shape[i] is Var && b.shape[j] is Var && a.shape[i]->Var_0 == b.shape[j]->Var_0)
        ==> a.extents[i] == b.extents[j]
}

/// Whether two arrays bind every dimension name that both have to the
/// same extent.
pub open spec fn names_agree(a: ArrayModel, b: ArrayModel) -> bool {
    forall|i: int, j: int|
        0 <= i < a.shape.len() && 0 <= j < b.shape.len() ==> #[trigger] agree_at(a, b, i, j)
}

/// A window of an array is an array: it holds as many elements as its one
/// fixed dimension says.
pub proof fn lemma_window_consistent(m: ArrayModel, start: nat, end: nat)
    ensures
        m.window(start, end).consistent(),
{
    let w = m.window(start, end);
    reveal_with_fuel(prefix_count, 2);
    assert(extent_fits_at(w.shape, w.extents, 0));
    assert(prefix_count(w.extents, 1) == 1 * w.extents[0]->Uniform_0);
}

/// An array that owns its buffer, with its shape and the kind of its elements.
#[derive(Debug, PartialEq, Eq)]
pub struct Array {
    shape: Shape,
    extents: Vec<Extent>,
    storage: ArrayImpl,
}

impl View for Array {
    type V = ArrayModel;

    closed spec fn view(&self) -> ArrayModel {
        ArrayModel {
            shape: self.shape@,
            extents: extent_models(self.extents@),
            dtype: self.storage.dtype(),
            elements: self.storage.elements(),
        }
    }
}

impl Array {
    #[verifier::type_invariant]
    spec fn well_formed(&self) -> bool {
        self@.consistent()
    }

    /// Builds an array from a buffer, a shape and the concrete extent of
    /// each dimension. It is built exactly when the extents are ones that the
    /// shape allows and call for as many elements as the buffer holds;
    /// anything else is a shape mismatch.
    pub fn with_extents(storage: ArrayImpl, shape: Shape, extents: Vec<Extent>) -> (r: Result<
        Array,
        Error,
    >)
        ensures
            r is Ok <==> extents_fit(shape@, extent_models(extents@)) && element_count(
                extent_models(extents@),
            ) == storage.elements().len(),
            r matches Ok(a) ==> a@ == (ArrayModel {
                shape: shape@,
                extents: extent_models(extents@),
                dtype: storage.dtype(),
                elements: storage.elements(),
            }),
            r matches Err(e) ==> e == Error::ShapeMismatch,
    {
        if extents_match(&shape, &extents, storage.len()) {
            Ok(Array { shape, extents, storage })
        } else {
            Err(Error::ShapeMismatch)
        }
    }

    /// Builds an array from a buffer and a shape of fixed dimensions. It is
    /// built exactly when every dimension is fixed and their product is the
    /// number of elements in the buffer; anything else is a shape mismatch.
    pub fn new(storage: ArrayImpl, shape: Shape) -> (r: Result<Array, Error>)
        ensures
            r is Ok <==> all_fixed(shape@) && fixed_product(shape@) == storage.elements().len(),
            r matches Ok(a) ==> a@ == (ArrayModel {
                shape: shape@,
                extents: fixed_extents(shape@),
                dtype: storage.dtype(),
                elements: storage.elements(),
            }),
            r matches Err(e) ==> e == Error::ShapeMismatch,
    {
        let mut extents: Vec<Extent> = Vec::new();
        let mut j: usize = 0;
        while j < shape.0.len()
            invariant
                j <= shape.0.len(),
                extents.len() == j,
                forall|k: int| 0 <= k < j ==> #[trigger] shape@[k] is Fixed,
                forall|k: int|
                    0 <= k < j ==> extents@[k]@ == ExtentModel::Uniform(shape@[k]->Fixed_0),
            decreases shape.0.len() - j,
        {
            match &shape.0[j] {
                Dim::Fixed(n) => {
                    extents.push(Extent::Uniform(*n));
                },
                _ => {
                    assert(!(shape@[j as int] is Fixed));
                    return Err(Error::ShapeMismatch);
                },
            }
            j += 1;
        }
        proof {
            let dims = shape@;
            let exts = extent_models(extents@);
            assert(exts =~= fixed_extents(dims));
            assert forall|k: int| 0 <= k < dims.len() implies #[trigger] extent_fits_at(
                dims,
                exts,
                k,
            ) by {
                assert(dims[k] is Fixed);
            }
            assert forall|a: int, b: int| 0 <= a < b < dims.len() implies #[trigger] names_agree_at(
                dims,
                exts,
                a,
                b,
            ) by {
                assert(dims[a] is Fixed);
            }
            assert(extents_fit(dims, exts));
        }
        Array::with_extents(storage, shape, extents)
    }

    /// The number of elements. Every array is consistent: its extents are
    /// ones that its shape allows, and they call for this many elements.
    pub fn len(&self) -> (n: usize)
        ensures
            n == self@.elements.len(),
            self@.consistent(),
    {
        proof {
            use_type_invariant(self);
        }
        self.storage.len()
    }

    /// The kind of the elements.
    pub fn element_type(&self) -> (ty: PrimitiveType)
        ensures
            ty == self@.dtype,
    {
        self.storage.element_type()
    }

    /// The shape.
    pub fn shape(&self) -> (shape: &Shape)
        ensures
            shape@ == self@.shape,
    {
        &self.shape
    }

    /// The concrete extent of each dimension.
    pub fn extents(&self) -> (extents: &Vec<Extent>)
        ensures
            extent_models(extents@) == self@.extents,
    {
        &self.extents
    }

    /// The element at `i` in buffer order, or nothing past the end.
    pub fn get(&self, i: usize) -> (r: Option<Primitive>)
        ensures
            r == if i < self@.elements.len() {
                Some(self@.elements[i as int])
            } else {
                None
            },
    {
        self.storage.get(i)
    }

    /// Writes `value` at `i` in buffer order. A value of another kind than
    /// the array's is a type mismatch; an index past the end is a shape
    /// mismatch; either leaves the array as it was.
    pub fn set(&mut self, i: usize, value: Primitive) -> (r: Result<(), Error>)
        ensures
            r == if value.kind() != old(self)@.dtype {
                Err::<(), Error>(
                    Error::TypeMismatch { expected: old(self)@.dtype, found: value.kind(), at: None },
                )
            } else if i >= old(self)@.elements.len() {
                Err(Error::ShapeMismatch)
            } else {
                Ok(())
            },
            r is Ok ==> final(self)@ == (ArrayModel {
                elements: old(self)@.elements.update(i as int, value),
                ..old(self)@
            }),
            r is Err ==> final(self)@ == old(self)@,
    {
        proof {
            use_type_invariant(&*self);
        }
        let expected = self.storage.element_type();
        let found = value.primitive_type();
        if expected != found {
            return Err(Error::TypeMismatch { expected, found, at: None });
        }
        if i >= self.storage.len() {
            return Err(Error::ShapeMismatch);
        }
        self.storage.write(i, value);
        Ok(())
    }

    /// The extent that this array binds the dimension name `name` to, or
    /// nothing where no dimension of its shape has that name.
    pub fn extent_of(&self, name: &String) -> (r: Option<usize>)
        ensures
            match r {
                Some(n) => binds(self@, name@, n as nat),
                None => forall|i: int|
                    0 <= i < self@.shape.len() ==> #[trigger] self@.shape[i] != DimModel::Var(
                        name@,
                    ),
            },
    {
        proof {
            use_type_invariant(self);
        }
        let mut i: usize = 0;
        while i < self.shape.0.len()
            invariant
                i <= self.shape.0.len(),
                self@.consistent(),
                forall|k: int| 0 <= k < i ==> #[trigger] self@.shape[k] != DimModel::Var(name@),
            decreases self.shape.0.len() - i,
        {
            match &self.shape.0[i] {
                Dim::Var(n) => {
                    if *n == *name {
                        assert(self@.shape[i as int] == DimModel::Var(name@));
                        assert(extent_fits_at(self@.shape, self@.extents, i as int));
                        match &self.extents[i] {
                            Extent::Uniform(e) => {
                                assert(binds(self@, name@, *e as nat)) by {
                                    assert(self@.extents[i as int] == ExtentModel::Uniform(
                                        *e as nat,
                                    ));
                                }
                                return Some(*e);
                            },
                            Extent::Ragged(_) => {},
                        }
                    }
                },
                _ => {},
            }
            i += 1;
        }
        None
    }

    /// Whether this array and `other` bind every dimension name that both
    /// have to the same extent.
    pub fn agrees_with(&self, other: &Array) -> (b: bool)
        ensures
            b == names_agree(self@, other@),
    {
        proof {
            use_type_invariant(self);
            use_type_invariant(other);
        }
        let mut i: usize = 0;
        while i < self.shape.0.len()
            invariant
                i <= self.shape.0.len(),
                self@.consistent(),
                other@.consistent(),
                forall|a: int, b: int|
                    0 <= a < i && 0 <= b < other@.shape.len() ==> #[trigger] agree_at(
                        self@,
                        other@,
                        a,
                        b,
                    ),
            decreases self.shape.0.len() - i,
        {
            let mut j: usize = 0;
            while j < other.shape.0.len()
                invariant
                    i < self.shape.0.len(),
                    j <= other.shape.0.len(),
                    self@.consistent(),
                    other@.consistent(),
                    forall|b: int| 0 <= b < j ==> #[trigger] agree_at(self@, other@, i as int, b),
                decreases other.shape.0.len() - j,
            {
                if same_name(&self.shape.0[i], &other.shape.0[j]) {
                    assert(extent_fits_at(self@.shape, self@.extents, i as int));
                    assert(extent_fits_at(other@.shape, other@.extents, j as int));
                    match (&self.extents[i], &other.extents[j]) {
                        (Extent::Uniform(x), Extent::Uniform(y)) => {
                            if *x != *y {
                                assert(!agree_at(self@, other@, i as int, j as int));
                                return false;
                            }
                        },
                        _ => {},
                    }
                }
                assert(agree_at(self@, other@, i as int, j as int));
                j += 1;
            }
            i += 1;
        }
        true
    }

    /// A view of the whole array.
    pub fn borrow(&self) -> (v: ArrayView<'_>)
        ensures
            v@ == self@,
    {
        ArrayView { owner: self, window: None }
    }

    /// A view of the elements from `start` up to `end` in buffer order, as a
    /// one-dimensional array. Both ends are cut back to what the buffer
    /// holds, so every pair of ends gives a view.
    pub fn slice(&self, start: usize, end: usize) -> (v: ArrayView<'_>)
        ensures
            v@ == self@.window(start as nat, end as nat),
    {
        let len = self.storage.len();
        let hi = if end < len { end } else { len };
        let lo = if start < hi { start } else { hi };
        ArrayView { owner: self, window: Some((lo, hi)) }
    }

    /// A copy of this array that shares nothing with it: what taking a view
    /// of the whole array and making that view an owned array gives.
    pub fn duplicate(&self) -> (out: Array)
        ensures
            out@ == self@,
    {
        self.borrow().to_owned()
    }
}

/// A view into an array, or into a contiguous part of its buffer. It holds
/// no elements of its own and is cheap to copy.
#[derive(Debug, Clone, Copy)]
pub struct ArrayView<'a> {
    owner: &'a Array,
    window: Option<(usize, usize)>,
}

impl<'a> View for ArrayView<'a> {
    type V = ArrayModel;

    closed spec fn view(&self) -> ArrayModel {
        match self.window {
            None => self.owner@,
            Some((lo, hi)) => self.owner@.window(lo as nat, hi as nat),
        }
    }
}

impl<'a> ArrayView<'a> {
    #[verifier::type_invariant]
    spec fn well_formed(&self) -> bool {
        self.window matches Some((lo, hi)) ==> lo <= hi <= self.owner@.elements.len()
    }

    /// The number of elements in view. What a view shows is consistent, as
    /// an array is.
    pub fn len(&self) -> (n: usize)
        ensures
            n == self@.elements.len(),
            self@.consistent(),
    {
        proof {
            use_type_invariant(self);
            use_type_invariant(self.owner);
            if let Some((lo, hi)) = self.window {
                lemma_window_consistent(self.owner@, lo as nat, hi as nat);
            }
        }
        match self.window {
            None => self.owner.len(),
            Some((lo, hi)) => hi - lo,
        }
    }

    /// The kind of the elements.
    pub fn element_type(&self) -> (ty: PrimitiveType)
        ensures
            ty == self@.dtype,
    {
        self.owner.element_type()
    }

    /// The element at `i` of the view, or nothing past its end.
    pub fn get(&self, i: usize) -> (r: Option<Primitive>)
        ensures
            r == if i < self@.elements.len() {
                Some(self@.elements[i as int])
            } else {
                None
            },
    {
        proof {
            use_type_invariant(self);
        }
        match self.window {
            None => self.owner.get(i),
            Some((lo, hi)) => {
                if i < hi - lo {
                    self.owner.get(lo + i)
                } else {
                    None
                }
            },
        }
    }

    /// An array of its own that holds copies of the elements in view, with
    /// the shape and element kind that the view shows. It always succeeds.
    pub fn to_owned(&self) -> (out: Array)
        ensures
            out@ == self@,
    {
        proof {
            use_type_invariant(self);
            use_type_invariant(self.owner);
        }
        match self.window {
            None => {
                let len = self.owner.storage.len();
                let storage = self.owner.storage.copy_range(0, len);
                assert(storage.elements() =~= self.owner.storage.elements());
                Array {
                    shape: self.owner.shape.duplicate(),
                    extents: duplicate_extents(&self.owner.extents),
                    storage,
                }
            },
            Some((lo, hi)) => {
                let storage = self.owner.storage.copy_range(lo, hi);
                let mut dims: Vec<Dim> = Vec::new();
                dims.push(Dim::Fixed(hi - lo));
                let mut extents: Vec<Extent> = Vec::new();
                extents.push(Extent::Uniform(hi - lo));
                let shape = Shape(dims);
                proof {
                    lemma_window_consistent(self.owner@, lo as nat, hi as nat);
                    assert(shape@ =~= seq![DimModel::Fixed((hi - lo) as nat)]);
                    assert(extent_models(extents@) =~= seq![
                        ExtentModel::Uniform((hi - lo) as nat),
                    ]);
                }
                Array { shape, extents, storage }
            },
        }
    }
}

/// An array that is either borrowed or owned. Reading is the same for
/// both; writing first makes the array an owned one.
#[derive(Debug)]
pub enum CowArray<'a> {
    Borrowed(ArrayView<'a>),
    Owned(Array),
}

impl<'a> View for CowArray<'a> {
    type V = ArrayModel;

    open spec fn view(&self) -> ArrayModel {
        match self {
            CowArray::Borrowed(v) => v@,
            CowArray::Owned(a) => a@,
        }
    }
}

impl<'a> CowArray<'a> {
    /// The number of elements.
    pub fn len(&self) -> (n: usize)
        ensures
            n == self@.elements.len(),
    {
        match self {
            CowArray::Borrowed(v) => v.len(),
            CowArray::Owned(a) => a.len(),
        }
    }

    /// The kind of the elements.
    pub fn element_type(&self) -> (ty: PrimitiveType)
        ensures
            ty == self@.dtype,
    {
        match self {
            CowArray::Borrowed(v) => v.element_type(),
            CowArray::Owned(a) => a.element_type(),
        }
    }

    /// The element at `i`, or nothing past the end.
    pub fn get(&self, i: usize) -> (r: Option<Primitive>)
        ensures
            r == if i < self@.elements.len() {
                Some(self@.elements[i as int])
            } else {
                None
            },
    {
        match self {
            CowArray::Borrowed(v) => v.get(i),
            CowArray::Owned(a) => a.get(i),
        }
    }

    /// Whether the array is an owned one.
    pub fn is_owned(&self) -> (b: bool)
        ensures
            b == (self is Owned),
    {
        match self {
            CowArray::Borrowed(_) => false,
            CowArray::Owned(_) => true,
        }
    }

    /// The array as an owned one: the array itself where it is owned, a copy
    /// of what is in view where it is borrowed.
    pub fn into_owned(self) -> (out: Array)
        ensures
            out@ == self@,
            self matches CowArray::Owned(a) ==> out == a,
    {
        match self {
            CowArray::Borrowed(v) => v.to_owned(),
            CowArray::Owned(a) => a,
        }
    }

    /// Writes `value` at `i`. Where the write is in order the array is an
    /// owned one afterwards, and what was borrowed is untouched. A value of
    /// another kind than the array's is a type mismatch and an index past
    /// the end a shape mismatch; either leaves this value as it was.
    pub fn set(&mut self, i: usize, value: Primitive) -> (r: Result<(), Error>)
        ensures
            r == if value.kind() != old(self)@.dtype {
                Err::<(), Error>(
                    Error::TypeMismatch { expected: old(self)@.dtype, found: value.kind(), at: None },
                )
            } else if i >= old(self)@.elements.len() {
                Err(Error::ShapeMismatch)
            } else {
                Ok(())
            },
            r is Ok ==> *final(self) is Owned && final(self)@ == (ArrayModel {
                elements: old(self)@.elements.update(i as int, value),
                ..old(self)@
            }),
            r is Err ==> *final(self) == *old(self),
    {
        let expected = self.element_type();
        let found = value.primitive_type();
        if expected != found {
            return Err(Error::TypeMismatch { expected, found, at: None });
        }
        if i >= self.len() {
            return Err(Error::ShapeMismatch);
        }
        match self {
            CowArray::Owned(a) => a.set(i, value),
            CowArray::Borrowed(v) => {
                let mut owned = v.to_owned();
                let r = owned.set(i, value);
                *self = CowArray::Owned(owned);
                r
            },
        }
    }
}

} // verus!
