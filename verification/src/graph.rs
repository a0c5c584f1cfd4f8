//! The graph model: references, the three kinds of visitors, the graphs
//! they are driven over, and the two halves of a wire format.

use vstd::prelude::*;
use vstd::string::StringExecFns;

use crate::lists::reversed;
use crate::identity::{Identity, Session};
use crate::types::{Primitive, PrimitiveType, TypeInfo};

verus! {

/// A reference to a value of type `T`: the value can be borrowed through it,
/// and it carries an identity token. The token tells references of one
/// session apart; it is not a stable name of the value across sessions.
pub trait Ref<T>: Sized {
    /// The value referred to.
    open spec fn target(&self) -> T {
        arbitrary()
    }

    /// The identity token.
    open spec fn token(&self) -> Identity {
        arbitrary()
    }

    fn borrow(&self) -> (value: &T)
        ensures
            *value == self.target(),
    ;

    fn id(self) -> (id: Identity)
        ensures
            id == self.token(),
    ;
}

/// A reference that borrows its target and owns nothing.
#[derive(Debug)]
pub struct Shared<'a, T> {
    id: Identity,
    value: &'a T,
}

impl<'a, T> Shared<'a, T> {
    /// The reference to `value` with the token `id`.
    pub fn new(id: Identity, value: &'a T) -> (shared: Shared<'a, T>)
        ensures
            shared.target() == *value,
            shared.token() == id,
    {
        Shared { id, value }
    }

    /// A new reference to `value`, under a token that the session issues for
    /// it: one that it has not issued before. No reference is made, and the
    /// session stays as it was, in the case that the session issues no token;
    /// a session that has issued no token always issues one.
    pub fn fresh(session: &mut Session, value: &'a T) -> (r: Option<Shared<'a, T>>)
        ensures
            old(session)@.len() == 0 ==> r is Some,
            r matches Some(shared) ==> shared.target() == *value && !old(session)@.contains(
                shared.token().0,
            ) && final(session)@ == old(session)@.push(shared.token().0),
            r is None ==> final(session)@ == old(session)@,
    {
        match session.fresh() {
            Some(id) => Some(Shared { id, value }),
            None => None,
        }
    }

    /// Another reference to the same target, with the same token.
    pub fn share(&self) -> (shared: Shared<'a, T>)
        ensures
            shared.target() == self.target(),
            shared.token() == self.token(),
    {
        Shared { id: self.id, value: self.value }
    }
}

impl<'a, T> Ref<T> for Shared<'a, T> {
    closed spec fn target(&self) -> T {
        *self.value
    }

    closed spec fn token(&self) -> Identity {
        self.id
    }

    fn borrow(&self) -> (value: &T) {
        self.value
    }

    fn id(self) -> (id: Identity) {
        self.id
    }
}

/// The shape of a graph without its leaf data: the kind of each scalar,
/// the places of the leaves, and the named nodes with their parts in order.
pub enum Schema {
    Primitive(PrimitiveType),
    LeafRef,
    Node(Seq<char>, Seq<Schema>),
}

/// A graph with its data: the scalars, the leaves, the references to
/// leaves, each with its identity token, and the named nodes with their
/// parts in order.
pub enum Tree<Leaf> {
    Primitive(Primitive),
    Leaf(Leaf),
    Shared(Identity, Leaf),
    Node(Seq<char>, Seq<Tree<Leaf>>),
}

/// The shape of a graph: every scalar becomes its kind, every leaf and
/// every reference to a leaf the mere fact that a leaf stands there.
pub open spec fn schema_of<Leaf>(t: Tree<Leaf>) -> Schema
    decreases t,
{
    match t {
        Tree::Primitive(p) => Schema::Primitive(p.kind()),
        Tree::Leaf(_) => Schema::LeafRef,
        Tree::Shared(_, _) => Schema::LeafRef,
        Tree::Node(name, parts) => Schema::Node(name, schemas_of(parts)),
    }
}

/// The shapes of a list of graphs.
pub open spec fn schemas_of<Leaf>(parts: Seq<Tree<Leaf>>) -> Seq<Schema>
    decreases parts,
{
    Seq::new(
        parts.len(),
        |i: int|
            if 0 <= i < parts.len() {
                schema_of(parts[i])
            } else {
                Schema::LeafRef
            },
    )
}

/// A visitor of the shape of a graph. It is told the kind of each scalar
/// and that a leaf stands at a place; it never gets the leaf.
///
/// `Summary` is what an output amounts to in contracts, and `summary` reads
/// it off an output. The functions `primitive_seen`, `leaf_ref_seen` and
/// `composite_seen` say what the visitor makes of what it is shown, and
/// `forked` which visitor it hands to a part. An implementation that leaves
/// them as they are says nothing definite of what it computes.
pub trait ModelVisitor<Leaf>: Sized {
    type Output;

    type Summary;

    open spec fn summary(out: &Self::Output) -> Self::Summary {
        arbitrary()
    }

    /// What the visitor makes of a scalar of kind `ty`.
    open spec fn primitive_seen(&self, ty: PrimitiveType) -> Self::Summary {
        arbitrary()
    }

    /// What the visitor makes of a leaf.
    open spec fn leaf_ref_seen(&self) -> Self::Summary {
        arbitrary()
    }

    /// What the visitor makes of a node named `name`, given what the
    /// visitors of its parts made of the parts.
    open spec fn composite_seen(&self, name: Seq<char>, parts: Seq<Self::Summary>) -> Self::Summary {
        arbitrary()
    }

    /// The visitor of a part.
    open spec fn forked(&self) -> Self {
        *self
    }

    fn visited_primitive(self, ty: PrimitiveType) -> (out: Self::Output)
        ensures
            Self::summary(&out) == self.primitive_seen(ty),
    ;

    fn visited_leaf_ref(self) -> (out: Self::Output)
        ensures
            Self::summary(&out) == self.leaf_ref_seen(),
    ;

    fn visited_composite(self, info: &TypeInfo, parts: Vec<Self::Output>) -> (out: Self::Output)
        ensures
            Self::summary(&out) == self.composite_seen(
                info@,
                Seq::new(parts@.len(), |i: int| Self::summary(&parts@[i])),
            ),
    ;

    fn fork(&self) -> (child: Self)
        ensures
            child == self.forked(),
    ;
}

/// A visitor of a graph that is borrowed: it gets each scalar, and each
/// leaf by reference, from which it may make a leaf of its own when it
/// needs one. A reference in the graph is shown as a reference: with its
/// identity token, and without the leaf being taken out of it.
pub trait Visitor<Leaf>: Sized {
    type Output;

    type Summary;

    open spec fn summary(out: &Self::Output) -> Self::Summary {
        arbitrary()
    }

    open spec fn primitive_seen(&self, prim: Primitive) -> Self::Summary {
        arbitrary()
    }

    open spec fn leaf_seen(&self, leaf: Leaf) -> Self::Summary {
        arbitrary()
    }

    /// What the visitor makes of a reference with the token `id` to `leaf`.
    open spec fn leaf_ref_seen(&self, id: Identity, leaf: Leaf) -> Self::Summary {
        arbitrary()
    }

    open spec fn composite_seen(&self, name: Seq<char>, parts: Seq<Self::Summary>) -> Self::Summary {
        arbitrary()
    }

    open spec fn forked(&self) -> Self {
        *self
    }

    fn visited_primitive(self, prim: Primitive) -> (out: Self::Output)
        ensures
            Self::summary(&out) == self.primitive_seen(prim),
    ;

    fn visited_leaf(self, leaf: &Leaf) -> (out: Self::Output)
        ensures
            Self::summary(&out) == self.leaf_seen(*leaf),
    ;

    fn visited_leaf_ref(self, id: Identity, leaf: &Leaf) -> (out: Self::Output)
        ensures
            Self::summary(&out) == self.leaf_ref_seen(id, *leaf),
    ;

    fn visited_composite(self, info: &TypeInfo, parts: Vec<Self::Output>) -> (out: Self::Output)
        ensures
            Self::summary(&out) == self.composite_seen(
                info@,
                Seq::new(parts@.len(), |i: int| Self::summary(&parts@[i])),
            ),
    ;

    fn fork(&self) -> (child: Self)
        ensures
            child == self.forked(),
    ;
}

/// A visitor of a graph that is given away: it gets each scalar and each
/// leaf itself, so that nothing has to be copied. A reference in the graph
/// stays a reference: the visitor gets its identity token and is lent the
/// leaf.
pub trait IntoVisitor<Leaf>: Sized {
    type Output;

    type Summary;

    open spec fn summary(out: &Self::Output) -> Self::Summary {
        arbitrary()
    }

    open spec fn primitive_seen(&self, prim: Primitive) -> Self::Summary {
        arbitrary()
    }

    open spec fn leaf_seen(&self, leaf: Leaf) -> Self::Summary {
        arbitrary()
    }

    /// What the visitor makes of a reference with the token `id` to `leaf`.
    open spec fn leaf_ref_seen(&self, id: Identity, leaf: Leaf) -> Self::Summary {
        arbitrary()
    }

    open spec fn composite_seen(&self, name: Seq<char>, parts: Seq<Self::Summary>) -> Self::Summary {
        arbitrary()
    }

    open spec fn forked(&self) -> Self {
        *self
    }

    fn visited_primitive(self, prim: Primitive) -> (out: Self::Output)
        ensures
            Self::summary(&out) == self.primitive_seen(prim),
    ;

    fn visited_leaf(self, leaf: Leaf) -> (out: Self::Output)
        ensures
            Self::summary(&out) == self.leaf_seen(leaf),
    ;

    fn visited_leaf_ref(self, id: Identity, leaf: &Leaf) -> (out: Self::Output)
        ensures
            Self::summary(&out) == self.leaf_ref_seen(id, *leaf),
    ;

    fn visited_composite(self, info: &TypeInfo, parts: Vec<Self::Output>) -> (out: Self::Output)
        ensures
            Self::summary(&out) == self.composite_seen(
                info@,
                Seq::new(parts@.len(), |i: int| Self::summary(&parts@[i])),
            ),
    ;

    fn fork(&self) -> (child: Self)
        ensures
            child == self.forked(),
    ;
}

/// What a shape visitor makes of a shape: each part of a node is seen by a
/// fork of the node's visitor, and the node's visitor composes what they made.
pub open spec fn model_fold<Leaf, V: ModelVisitor<Leaf>>(v: V, s: Schema) -> V::Summary
    decreases s,
{
    match s {
        Schema::Primitive(ty) => v.primitive_seen(ty),
        Schema::LeafRef => v.leaf_ref_seen(),
        Schema::Node(name, parts) => v.composite_seen(
            name,
            model_fold_each::<Leaf, V>(v.forked(), parts),
        ),
    }
}

/// What a shape visitor makes of each shape of a list.
pub open spec fn model_fold_each<Leaf, V: ModelVisitor<Leaf>>(v: V, parts: Seq<Schema>) -> Seq<
    V::Summary,
>
    decreases parts,
{
    Seq::new(
        parts.len(),
        |i: int|
            if 0 <= i < parts.len() {
                model_fold::<Leaf, V>(v, parts[i])
            } else {
                v.leaf_ref_seen()
            },
    )
}

/// What a borrowing visitor makes of a graph.
pub open spec fn visit_fold<Leaf, V: Visitor<Leaf>>(v: V, t: Tree<Leaf>) -> V::Summary
    decreases t,
{
    match t {
        Tree::Primitive(p) => v.primitive_seen(p),
        Tree::Leaf(leaf) => v.leaf_seen(leaf),
        Tree::Shared(id, leaf) => v.leaf_ref_seen(id, leaf),
        Tree::Node(name, parts) => v.composite_seen(
            name,
            visit_fold_each::<Leaf, V>(v.forked(), parts),
        ),
    }
}

/// What a borrowing visitor makes of each graph of a list.
pub open spec fn visit_fold_each<Leaf, V: Visitor<Leaf>>(v: V, parts: Seq<Tree<Leaf>>) -> Seq<
    V::Summary,
>
    decreases parts,
{
    Seq::new(
        parts.len(),
        |i: int|
            if 0 <= i < parts.len() {
                visit_fold::<Leaf, V>(v, parts[i])
            } else {
                v.composite_seen(Seq::empty(), Seq::empty())
            },
    )
}

/// What an owning visitor makes of a graph.
pub open spec fn into_fold<Leaf, V: IntoVisitor<Leaf>>(v: V, t: Tree<Leaf>) -> V::Summary
    decreases t,
{
    match t {
        Tree::Primitive(p) => v.primitive_seen(p),
        Tree::Leaf(leaf) => v.leaf_seen(leaf),
        Tree::Shared(id, leaf) => v.leaf_ref_seen(id, leaf),
        Tree::Node(name, parts) => v.composite_seen(
            name,
            into_fold_each::<Leaf, V>(v.forked(), parts),
        ),
    }
}

/// What an owning visitor makes of each graph of a list.
pub open spec fn into_fold_each<Leaf, V: IntoVisitor<Leaf>>(v: V, parts: Seq<Tree<Leaf>>) -> Seq<
    V::Summary,
>
    decreases parts,
{
    Seq::new(
        parts.len(),
        |i: int|
            if 0 <= i < parts.len() {
                into_fold::<Leaf, V>(v, parts[i])
            } else {
                v.composite_seen(Seq::empty(), Seq::empty())
            },
    )
}

/// What a shape visitor makes of a node is what it composes from what its
/// fork made of each part.
pub proof fn lemma_model_node<Leaf, V: ModelVisitor<Leaf>>(
    v: V,
    name: Seq<char>,
    parts: Seq<Tree<Leaf>>,
    made: Seq<V::Summary>,
)
    requires
        made.len() == parts.len(),
        forall|i: int|
            0 <= i < parts.len() ==> made[i] == model_fold::<Leaf, V>(
                v.forked(),
                schema_of(#[trigger] parts[i]),
            ),
    ensures
        model_fold::<Leaf, V>(v, schema_of(Tree::Node(name, parts))) == v.composite_seen(
            name,
            made,
        ),
{
    assert(model_fold_each::<Leaf, V>(v.forked(), schemas_of(parts)) =~= made);
}

/// What a borrowing visitor makes of a node is what it composes from what
/// its fork made of each part.
pub proof fn lemma_visit_node<Leaf, V: Visitor<Leaf>>(
    v: V,
    name: Seq<char>,
    parts: Seq<Tree<Leaf>>,
    made: Seq<V::Summary>,
)
    requires
        made.len() == parts.len(),
        forall|i: int|
            0 <= i < parts.len() ==> made[i] == visit_fold::<Leaf, V>(
                v.forked(),
                #[trigger] parts[i],
            ),
    ensures
        visit_fold::<Leaf, V>(v, Tree::Node(name, parts)) == v.composite_seen(name, made),
{
    assert(visit_fold_each::<Leaf, V>(v.forked(), parts) =~= made);
}

/// What an owning visitor makes of a node is what it composes from what
/// its fork made of each part.
pub proof fn lemma_into_node<Leaf, V: IntoVisitor<Leaf>>(
    v: V,
    name: Seq<char>,
    parts: Seq<Tree<Leaf>>,
    made: Seq<V::Summary>,
)
    requires
        made.len() == parts.len(),
        forall|i: int|
            0 <= i < parts.len() ==> made[i] == into_fold::<Leaf, V>(
                v.forked(),
                #[trigger] parts[i],
            ),
    ensures
        into_fold::<Leaf, V>(v, Tree::Node(name, parts)) == v.composite_seen(name, made),
{
    assert(into_fold_each::<Leaf, V>(v.forked(), parts) =~= made);
}

/// A value whose shape can be visited without touching its leaves.
pub trait GraphModel<Leaf> {
    /// The shape of the graph.
    open spec fn schema(&self) -> Schema {
        arbitrary()
    }

    /// Drives the visitor over the shape of the graph. What comes out is a
    /// function of the visitor and the shape alone.
    fn visit_model<V: ModelVisitor<Leaf>>(&self, v: V) -> (out: V::Output)
        ensures
            V::summary(&out) == model_fold::<Leaf, V>(v, self.schema()),
    ;
}

/// A graph that can be traversed with its data, borrowed or given away.
pub trait GraphSerialize<Leaf>: GraphModel<Leaf> + Sized {
    /// The graph with its data.
    open spec fn tree(&self) -> Tree<Leaf> {
        arbitrary()
    }

    /// Drives the visitor over the graph, lending it each leaf.
    fn visit<V: Visitor<Leaf>>(&self, v: V) -> (out: V::Output)
        ensures
            V::summary(&out) == visit_fold::<Leaf, V>(v, self.tree()),
    ;

    /// Drives the visitor over the graph, giving it each leaf.
    fn visit_into<V: IntoVisitor<Leaf>>(self, v: V) -> (out: V::Output)
        ensures
            V::summary(&out) == into_fold::<Leaf, V>(v, self.tree()),
    ;
}

/// The sink half of a wire format: it takes a graph, borrowed or given
/// away, and externalizes it.
pub trait GraphSerializer<Leaf> {
    type Error;

    fn serialize<G: GraphSerialize<Leaf>>(&mut self, g: &G) -> Result<(), Self::Error>;

    fn serialize_into<G: GraphSerialize<Leaf>>(&mut self, g: G) -> Result<(), Self::Error>;
}

/// The source half of a wire format: given a model, for the shape that is
/// expected, it drives a visitor over what the source holds.
pub trait GraphDeserializer<Leaf> {
    type Err;

    fn deserialize<G: GraphModel<Leaf>, V: Visitor<Leaf>>(&mut self, t: &G, v: V) -> Result<
        V::Output,
        Self::Err,
    >;
}

impl<'a, Leaf> GraphModel<Leaf> for Shared<'a, Leaf> {
    open spec fn schema(&self) -> Schema {
        Schema::LeafRef
    }

    fn visit_model<V: ModelVisitor<Leaf>>(&self, v: V) -> (out: V::Output) {
        v.visited_leaf_ref()
    }
}

impl<'a, Leaf> GraphSerialize<Leaf> for Shared<'a, Leaf> {
    open spec fn tree(&self) -> Tree<Leaf> {
        Tree::Shared(self.token(), self.target())
    }

    fn visit<V: Visitor<Leaf>>(&self, v: V) -> (out: V::Output) {
        v.visited_leaf_ref(self.id, self.value)
    }

    fn visit_into<V: IntoVisitor<Leaf>>(self, v: V) -> (out: V::Output) {
        v.visited_leaf_ref(self.id, self.value)
    }
}

/// The graphs of a list of graphs.
pub open spec fn trees_of<Leaf, G: GraphSerialize<Leaf>>(items: Seq<G>) -> Seq<Tree<Leaf>> {
    Seq::new(items.len(), |i: int| items[i].tree())
}

/// The shapes that a list of graphs declares.
pub open spec fn declared<Leaf, G: GraphModel<Leaf>>(items: Seq<G>) -> Seq<Schema> {
    Seq::new(items.len(), |i: int| items[i].schema())
}

/// The type information of a list node.
fn list_info() -> (info: TypeInfo)
    ensures
        info@ == "List"@,
{
    TypeInfo::new(String::from_str("List"))
}

/// A list of graphs is a graph: a node named `List` with the graphs as
/// its parts.
impl<Leaf, G: GraphModel<Leaf>> GraphModel<Leaf> for Vec<G> {
    open spec fn schema(&self) -> Schema {
        Schema::Node("List"@, declared::<Leaf, G>(self@))
    }

    fn visit_model<V: ModelVisitor<Leaf>>(&self, v: V) -> (out: V::Output) {
        let mut parts: Vec<V::Output> = Vec::new();
        let mut i: usize = 0;
        while i < self.len()
            invariant
                i <= self.len(),
                parts@.len() == i,
                forall|k: int|
                    0 <= k < i ==> V::summary(&#[trigger] parts@[k]) == model_fold::<Leaf, V>(
                        v.forked(),
                        self@[k].schema(),
                    ),
            decreases self.len() - i,
        {
            parts.push(self[i].visit_model::<V>(v.fork()));
            i += 1;
        }
        proof {
            assert(model_fold_each::<Leaf, V>(v.forked(), declared::<Leaf, G>(self@)) =~= Seq::new(
                parts@.len(),
                |k: int| V::summary(&parts@[k]),
            ));
        }
        v.visited_composite(&list_info(), parts)
    }
}

impl<Leaf, G: GraphSerialize<Leaf>> GraphSerialize<Leaf> for Vec<G> {
    open spec fn tree(&self) -> Tree<Leaf> {
        Tree::Node("List"@, trees_of::<Leaf, G>(self@))
    }

    fn visit<V: Visitor<Leaf>>(&self, v: V) -> (out: V::Output) {
        let mut parts: Vec<V::Output> = Vec::new();
        let mut i: usize = 0;
        while i < self.len()
            invariant
                i <= self.len(),
                parts@.len() == i,
                forall|k: int|
                    0 <= k < i ==> V::summary(&#[trigger] parts@[k]) == visit_fold::<Leaf, V>(
                        v.forked(),
                        self@[k].tree(),
                    ),
            decreases self.len() - i,
        {
            parts.push(self[i].visit::<V>(v.fork()));
            i += 1;
        }
        proof {
            assert(visit_fold_each::<Leaf, V>(v.forked(), trees_of::<Leaf, G>(self@)) =~= Seq::new(
                parts@.len(),
                |k: int| V::summary(&parts@[k]),
            ));
        }
        v.visited_composite(&list_info(), parts)
    }

    fn visit_into<V: IntoVisitor<Leaf>>(self, v: V) -> (out: V::Output) {
        let ghost items = self@;
        let n = self.len();
        let mut rest = reversed(self);
        let mut parts: Vec<V::Output> = Vec::new();
        let mut i: usize = 0;
        while i < n
            invariant
                i <= n,
                n == items.len(),
                rest@.len() == n - i,
                forall|k: int| 0 <= k < rest@.len() ==> rest@[k] == items[n - 1 - k],
                parts@.len() == i,
                forall|k: int|
                    0 <= k < i ==> V::summary(&#[trigger] parts@[k]) == into_fold::<Leaf, V>(
                        v.forked(),
                        items[k].tree(),
                    ),
            decreases n - i,
        {
            match rest.pop() {
                Some(item) => {
                    parts.push(item.visit_into::<V>(v.fork()));
                },
                None => {},
            }
            i += 1;
        }
        proof {
            assert(into_fold_each::<Leaf, V>(v.forked(), trees_of::<Leaf, G>(items)) =~= Seq::new(
                parts@.len(),
                |k: int| V::summary(&parts@[k]),
            ));
        }
        v.visited_composite(&list_info(), parts)
    }
}

} // verus!
