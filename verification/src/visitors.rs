//! Visitors that the crate brings along: one that writes the shape of a
//! graph down as a schema, one that writes it down as an outline, one that
//! counts, and one that takes the leaves.

use vstd::prelude::*;

use crate::graph::{
    model_fold, model_fold_each, GraphModel, IntoVisitor, ModelVisitor, Schema, Visitor,
};
use crate::schema::{
    field_models, lemma_view_parts, scalar_model, DataType, DataTypeModel, FieldModel, StructField,
    StructType,
};
use crate::identity::Identity;
use crate::lists::reversed;
use crate::text::{decimal, decimal_text};
use crate::types::{Primitive, PrimitiveType, TypeInfo};

verus! {

/// The shape visitor that writes the shape down as a schema: a scalar
/// becomes the schema of its kind, a leaf an array whose elements are
/// opaque, and a node a record that has the node's name and one field for
/// each part, named by the part's position in decimal.
#[derive(Debug, Clone, Copy)]
pub struct SchemaVisitor;

/// The fields of the record that stands for a node with these parts.
pub open spec fn positional_fields(parts: Seq<DataTypeModel>) -> Seq<FieldModel> {
    Seq::new(parts.len(), |i: int| FieldModel { name: decimal(i as nat), ty: parts[i] })
}

impl<Leaf> ModelVisitor<Leaf> for SchemaVisitor {
    type Output = DataType;

    type Summary = DataTypeModel;

    open spec fn summary(out: &DataType) -> DataTypeModel {
        out@
    }

    open spec fn primitive_seen(&self, ty: PrimitiveType) -> DataTypeModel {
        scalar_model(ty)
    }

    open spec fn leaf_ref_seen(&self) -> DataTypeModel {
        DataTypeModel::Array(None, None)
    }

    open spec fn composite_seen(&self, name: Seq<char>, parts: Seq<DataTypeModel>) -> DataTypeModel {
        DataTypeModel::Dataclass(name, positional_fields(parts))
    }

    open spec fn forked(&self) -> SchemaVisitor {
        *self
    }

    fn visited_primitive(self, ty: PrimitiveType) -> (out: DataType) {
        DataType::scalar(ty)
    }

    fn visited_leaf_ref(self) -> (out: DataType) {
        DataType::opaque_array()
    }

    fn visited_composite(self, info: &TypeInfo, parts: Vec<DataType>) -> (out: DataType) {
        let ghost goal = positional_fields(Seq::new(parts@.len(), |i: int| parts@[i]@));
        let n = parts.len();
        let mut rest = reversed(parts);
        let mut fields: Vec<StructField> = Vec::new();
        let mut i: usize = 0;
        while i < n
            invariant
                i <= n,
                n == parts@.len(),
                rest@.len() == n - i,
                goal == positional_fields(Seq::new(parts@.len(), |i: int| parts@[i]@)),
                forall|k: int| 0 <= k < rest@.len() ==> rest@[k] == parts@[n - 1 - k],
                fields@.len() == i,
                forall|k: int| 0 <= k < i ==> fields@[k]@ == goal[k],
            decreases n - i,
        {
            match rest.pop() {
                Some(ty) => {
                    fields.push(StructField { name: decimal_text(i as u64), ty });
                },
                None => {},
            }
            i += 1;
        }
        let out = DataType::Dataclass(StructType { info: info.duplicate(), fields });
        proof {
            lemma_view_parts(out);
            assert(field_models(fields@) =~= goal);
            assert(Seq::new(
                parts@.len(),
                |i: int| <SchemaVisitor as ModelVisitor<Leaf>>::summary(&parts@[i]),
            ) =~= Seq::new(parts@.len(), |i: int| parts@[i]@));
        }
        out
    }

    fn fork(&self) -> (child: SchemaVisitor) {
        SchemaVisitor
    }
}

/// The schema of a graph, read off its shape alone: no leaf is touched.
pub fn data_type_of<Leaf, G: GraphModel<Leaf>>(g: &G) -> (out: DataType)
    ensures
        out@ == model_fold::<Leaf, SchemaVisitor>(SchemaVisitor, g.schema()),
{
    g.visit_model::<SchemaVisitor>(SchemaVisitor)
}

/// How many scalars, leaves and nodes a graph holds. Each count stops at
/// `usize::MAX`.
#[derive(Debug, Clone, Copy, PartialEq, Eq, Structural)]
pub struct Tally {
    pub primitives: usize,
    pub leaves: usize,
    pub nodes: usize,
}

/// A number as a count that stops at `usize::MAX`.
pub open spec fn capped(n: nat) -> usize {
    if n <= usize::MAX {
        n as usize
    } else {
        usize::MAX
    }
}

/// The sum of the scalar counts of the first `k` tallies.
pub open spec fn primitives_in(parts: Seq<Tally>, k: nat) -> nat
    decreases k,
{
    if k == 0 || k > parts.len() {
        0
    } else {
        primitives_in(parts, (k - 1) as nat) + parts[k - 1].primitives as nat
    }
}

/// The sum of the leaf counts of the first `k` tallies.
pub open spec fn leaves_in(parts: Seq<Tally>, k: nat) -> nat
    decreases k,
{
    if k == 0 || k > parts.len() {
        0
    } else {
        leaves_in(parts, (k - 1) as nat) + parts[k - 1].leaves as nat
    }
}

/// The sum of the node counts of the first `k` tallies.
pub open spec fn nodes_in(parts: Seq<Tally>, k: nat) -> nat
    decreases k,
{
    if k == 0 || k > parts.len() {
        0
    } else {
        nodes_in(parts, (k - 1) as nat) + parts[k - 1].nodes as nat
    }
}

/// The borrowing visitor that counts what it is shown and copies nothing.
#[derive(Debug, Clone, Copy)]
pub struct Census;

impl<Leaf> Visitor<Leaf> for Census {
    type Output = Tally;

    type Summary = Tally;

    open spec fn summary(out: &Tally) -> Tally {
        *out
    }

    open spec fn primitive_seen(&self, prim: Primitive) -> Tally {
        Tally { primitives: 1, leaves: 0, nodes: 0 }
    }

    open spec fn leaf_seen(&self, leaf: Leaf) -> Tally {
        Tally { primitives: 0, leaves: 1, nodes: 0 }
    }

    open spec fn leaf_ref_seen(&self, id: Identity, leaf: Leaf) -> Tally {
        Tally { primitives: 0, leaves: 1, nodes: 0 }
    }

    open spec fn composite_seen(&self, name: Seq<char>, parts: Seq<Tally>) -> Tally {
        Tally {
            primitives: capped(primitives_in(parts, parts.len())),
            leaves: capped(leaves_in(parts, parts.len())),
            nodes: capped(nodes_in(parts, parts.len()) + 1),
        }
    }

    open spec fn forked(&self) -> Census {
        *self
    }

    fn visited_primitive(self, prim: Primitive) -> (out: Tally) {
        Tally { primitives: 1, leaves: 0, nodes: 0 }
    }

    fn visited_leaf(self, leaf: &Leaf) -> (out: Tally) {
        Tally { primitives: 0, leaves: 1, nodes: 0 }
    }

    fn visited_leaf_ref(self, id: Identity, leaf: &Leaf) -> (out: Tally) {
        Tally { primitives: 0, leaves: 1, nodes: 0 }
    }

    fn visited_composite(self, info: &TypeInfo, parts: Vec<Tally>) -> (out: Tally) {
        let ghost all = Seq::new(parts@.len(), |i: int| parts@[i]);
        assert(all =~= parts@);
        let mut primitives: usize = 0;
        let mut leaves: usize = 0;
        let mut nodes: usize = 0;
        let mut i: usize = 0;
        while i < parts.len()
            invariant
                i <= parts.len(),
                primitives == capped(primitives_in(parts@, i as nat)),
                leaves == capped(leaves_in(parts@, i as nat)),
                nodes == capped(nodes_in(parts@, i as nat)),
            decreases parts.len() - i,
        {
            primitives = primitives.saturating_add(parts[i].primitives);
            leaves = leaves.saturating_add(parts[i].leaves);
            nodes = nodes.saturating_add(parts[i].nodes);
            i += 1;
        }
        proof {
            assert(Seq::new(
                parts@.len(),
                |i: int| <Census as Visitor<Leaf>>::summary(&parts@[i]),
            ) =~= parts@);
        }
        Tally { primitives, leaves, nodes: nodes.saturating_add(1) }
    }

    fn fork(&self) -> (child: Census) {
        Census
    }
}

/// The first `k` lists of leaves, one after the other.
pub open spec fn gathered<Leaf>(parts: Seq<Seq<Leaf>>, k: nat) -> Seq<Leaf>
    decreases k,
{
    if k == 0 || k > parts.len() {
        Seq::empty()
    } else {
        gathered(parts, (k - 1) as nat) + parts[k - 1]
    }
}

/// The owning visitor that takes the leaves of a graph, in the order of the
/// traversal. The leaves that come out are the leaves that went in: none is
/// copied. A leaf behind a reference is not the graph's to give, and stays
/// where it is.
#[derive(Debug, Clone, Copy)]
pub struct Harvest;

impl<Leaf> IntoVisitor<Leaf> for Harvest {
    type Output = Vec<Leaf>;

    type Summary = Seq<Leaf>;

    open spec fn summary(out: &Vec<Leaf>) -> Seq<Leaf> {
        out@
    }

    open spec fn primitive_seen(&self, prim: Primitive) -> Seq<Leaf> {
        Seq::empty()
    }

    open spec fn leaf_seen(&self, leaf: Leaf) -> Seq<Leaf> {
        seq![leaf]
    }

    open spec fn leaf_ref_seen(&self, id: Identity, leaf: Leaf) -> Seq<Leaf> {
        Seq::empty()
    }

    open spec fn composite_seen(&self, name: Seq<char>, parts: Seq<Seq<Leaf>>) -> Seq<Leaf> {
        gathered(parts, parts.len())
    }

    open spec fn forked(&self) -> Harvest {
        *self
    }

    fn visited_primitive(self, prim: Primitive) -> (out: Vec<Leaf>) {
        Vec::new()
    }

    fn visited_leaf(self, leaf: Leaf) -> (out: Vec<Leaf>) {
        let mut out: Vec<Leaf> = Vec::new();
        out.push(leaf);
        assert(out@ =~= seq![leaf]);
        out
    }

    fn visited_leaf_ref(self, id: Identity, leaf: &Leaf) -> (out: Vec<Leaf>) {
        Vec::new()
    }

    fn visited_composite(self, info: &TypeInfo, parts: Vec<Vec<Leaf>>) -> (out: Vec<Leaf>) {
        let ghost all = Seq::new(parts@.len(), |i: int| parts@[i]@);
        let n = parts.len();
        let mut rest = reversed(parts);
        let mut out: Vec<Leaf> = Vec::new();
        let mut i: usize = 0;
        while i < n
            invariant
                i <= n,
                n == parts@.len(),
                rest@.len() == n - i,
                all == Seq::new(parts@.len(), |i: int| parts@[i]@),
                forall|k: int| 0 <= k < rest@.len() ==> rest@[k] == parts@[n - 1 - k],
                out@ == gathered(all, i as nat),
            decreases n - i,
        {
            match rest.pop() {
                Some(mut part) => {
                    out.append(&mut part);
                },
                None => {},
            }
            i += 1;
        }
        proof {
            assert(Seq::new(
                parts@.len(),
                |i: int| <Harvest as IntoVisitor<Leaf>>::summary(&parts@[i]),
            ) =~= all);
        }
        out
    }

    fn fork(&self) -> (child: Harvest) {
        Harvest
    }
}

/// The shape of a graph, written down: the kind of each scalar, the places
/// of the leaves, and the named nodes with their parts in order.
#[derive(Debug, PartialEq, Eq)]
pub enum Outline {
    Primitive(PrimitiveType),
    LeafRef,
    Node(String, Vec<Outline>),
}

/// The shape that an outline writes down.
pub open spec fn outlined(o: Outline) -> Schema
    decreases o,
{
    match o {
        Outline::Primitive(ty) => Schema::Primitive(ty),
        Outline::LeafRef => Schema::LeafRef,
        Outline::Node(name, parts) => Schema::Node(
            name@,
            Seq::new(
                parts@.len(),
                |i: int|
                    if 0 <= i < parts@.len() {
                        outlined(parts@[i])
                    } else {
                        Schema::LeafRef
                    },
            ),
        ),
    }
}

impl View for Outline {
    type V = Schema;

    open spec fn view(&self) -> Schema {
        outlined(*self)
    }
}

/// The shapes that a list of outlines writes down.
pub open spec fn outlines(parts: Seq<Outline>) -> Seq<Schema> {
    Seq::new(parts.len(), |i: int| parts[i]@)
}

/// The outline of a node writes down the node of the shapes of its parts.
pub proof fn lemma_view_node(name: String, parts: Vec<Outline>)
    ensures
        Outline::Node(name, parts)@ == Schema::Node(name@, outlines(parts@)),
{
    assert(Outline::Node(name, parts)@->Node_1 =~= outlines(parts@));
}

/// The shape visitor that writes the shape down as it is.
#[derive(Debug, Clone, Copy)]
pub struct OutlineVisitor;

impl<Leaf> ModelVisitor<Leaf> for OutlineVisitor {
    type Output = Outline;

    type Summary = Schema;

    open spec fn summary(out: &Outline) -> Schema {
        out@
    }

    open spec fn primitive_seen(&self, ty: PrimitiveType) -> Schema {
        Schema::Primitive(ty)
    }

    open spec fn leaf_ref_seen(&self) -> Schema {
        Schema::LeafRef
    }

    open spec fn composite_seen(&self, name: Seq<char>, parts: Seq<Schema>) -> Schema {
        Schema::Node(name, parts)
    }

    open spec fn forked(&self) -> OutlineVisitor {
        *self
    }

    fn visited_primitive(self, ty: PrimitiveType) -> (out: Outline) {
        Outline::Primitive(ty)
    }

    fn visited_leaf_ref(self) -> (out: Outline) {
        Outline::LeafRef
    }

    fn visited_composite(self, info: &TypeInfo, parts: Vec<Outline>) -> (out: Outline) {
        let name = info.name().clone();
        proof {
            lemma_view_node(name, parts);
            assert(outlines(parts@) =~= Seq::new(
                parts@.len(),
                |i: int| <OutlineVisitor as ModelVisitor<Leaf>>::summary(&parts@[i]),
            ));
        }
        Outline::Node(name, parts)
    }

    fn fork(&self) -> (child: OutlineVisitor) {
        OutlineVisitor
    }
}

/// What the outline visitor makes of a shape is the shape.
pub proof fn lemma_outline_is_schema<Leaf>(s: Schema)
    ensures
        model_fold::<Leaf, OutlineVisitor>(OutlineVisitor, s) == s,
    decreases s,
{
    match s {
        Schema::Node(name, parts) => {
            assert forall|i: int| 0 <= i < parts.len() implies model_fold::<Leaf, OutlineVisitor>(
                OutlineVisitor,
                #[trigger] parts[i],
            ) == parts[i] by {
                lemma_outline_is_schema::<Leaf>(parts[i]);
            }
            assert(model_fold_each::<Leaf, OutlineVisitor>(OutlineVisitor, parts) =~= parts);
        },
        _ => {},
    }
}

/// The outline of a graph, read off its shape alone: no leaf is touched.
pub fn outline_of<Leaf, G: GraphModel<Leaf>>(g: &G) -> (out: Outline)
    ensures
        out@ == g.schema(),
{
    proof {
        lemma_outline_is_schema::<Leaf>(g.schema());
    }
    g.visit_model::<OutlineVisitor>(OutlineVisitor)
}

} // verus!
