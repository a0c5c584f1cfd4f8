//! An in-memory tape: the simplest sink and source behind the graph
//! model. A graph is written as a list of entries, head first, and read
//! back under the guidance of a model of its shape.

use vstd::prelude::*;

use crate::error::Error;
use crate::graph::{
    into_fold, into_fold_each, lemma_visit_node, schema_of, schemas_of, visit_fold,
    GraphDeserializer, GraphModel, GraphSerialize, GraphSerializer, IntoVisitor, Schema, Tree,
    Visitor,
};
use crate::visitors::{lemma_view_node, outline_of, outlines, Outline};
use crate::identity::Identity;
use crate::lists::reversed;
use crate::types::{Primitive, TypeInfo};
use crate::vm::expr::{Literal, LiteralModel};

verus! {

/// One entry of a tape: a scalar, a leaf, a reference to a leaf, which
/// gives the reference's identity token and a copy of the leaf, or the head
/// of a node, which gives the node's name and the number of its parts; the
/// parts follow.
#[derive(Debug, PartialEq, Eq)]
pub enum Datum {
    Primitive(Primitive),
    Leaf(Literal),
    Shared(u128, Literal),
    Node(String, usize),
}

/// What an entry of a tape says, with a leaf of the kind `L`: the leaf
/// itself, or what the leaf holds as a mathematical value.
pub enum Entry<L> {
    Primitive(Primitive),
    Leaf(L),
    Shared(u128, LiteralModel),
    Node(Seq<char>, nat),
}

impl View for Datum {
    type V = Entry<LiteralModel>;

    open spec fn view(&self) -> Entry<LiteralModel> {
        match self {
            Datum::Primitive(p) => Entry::Primitive(*p),
            Datum::Leaf(l) => Entry::Leaf(l@),
            Datum::Shared(token, l) => Entry::Shared(*token, l@),
            Datum::Node(name, parts) => Entry::Node(name@, *parts as nat),
        }
    }
}

/// What an entry says, with the leaf itself.
pub open spec fn held(d: Datum) -> Entry<Literal> {
    match d {
        Datum::Primitive(p) => Entry::Primitive(p),
        Datum::Leaf(l) => Entry::Leaf(l),
        Datum::Shared(token, l) => Entry::Shared(token, l@),
        Datum::Node(name, parts) => Entry::Node(name@, parts as nat),
    }
}

/// The entries of a tape, each with what its leaf holds.
pub open spec fn data(tape: Seq<Datum>) -> Seq<Entry<LiteralModel>> {
    Seq::new(tape.len(), |i: int| tape[i]@)
}

/// The entries of a tape, each with its leaf itself.
pub open spec fn entries(tape: Seq<Datum>) -> Seq<Entry<Literal>> {
    Seq::new(tape.len(), |i: int| held(tape[i]))
}

/// The first `k` tapes of a list, one after the other.
pub open spec fn spliced<A>(parts: Seq<Seq<A>>, k: nat) -> Seq<A>
    decreases k,
{
    if k == 0 || k > parts.len() {
        Seq::empty()
    } else {
        spliced(parts, (k - 1) as nat) + parts[k - 1]
    }
}

/// Puts the tapes of a list one after the other, behind `head`.
fn splice(head: Datum, parts: Vec<Vec<Datum>>) -> (out: Vec<Datum>)
    ensures
        out@ == seq![head] + spliced(Seq::new(parts@.len(), |i: int| parts@[i]@), parts@.len()),
{
    let ghost all = Seq::new(parts@.len(), |i: int| parts@[i]@);
    let n = parts.len();
    let mut rest = reversed(parts);
    let mut out: Vec<Datum> = Vec::new();
    out.push(head);
    let mut i: usize = 0;
    while i < n
        invariant
            i <= n,
            n == parts@.len(),
            rest@.len() == n - i,
            all == Seq::new(parts@.len(), |i: int| parts@[i]@),
            forall|k: int| 0 <= k < rest@.len() ==> rest@[k] == parts@[n - 1 - k],
            out@ == seq![head] + spliced(all, i as nat),
        decreases n - i,
    {
        match rest.pop() {
            Some(mut part) => {
                out.append(&mut part);
            },
            None => {},
        }
        i += 1;
        assert(out@ =~= seq![head] + spliced(all, i as nat));
    }
    out
}

/// Reading every entry of a tape that is spliced from parts is splicing
/// what reading every entry of each part gives.
proof fn lemma_spliced_each<A, B>(parts: Seq<Seq<A>>, read: spec_fn(A) -> B, k: nat)
    requires
        k <= parts.len(),
    ensures
        spliced(parts, k).map_values(read) == spliced(
            Seq::new(parts.len(), |i: int| parts[i].map_values(read)),
            k,
        ),
    decreases k,
{
    let views = Seq::new(parts.len(), |i: int| parts[i].map_values(read));
    if k == 0 {
        assert(spliced(parts, k).map_values(read) =~= spliced(views, k));
    } else {
        lemma_spliced_each(parts, read, (k - 1) as nat);
        assert(spliced(parts, k).map_values(read) =~= spliced(parts, (k - 1) as nat).map_values(
            read,
        ) + parts[k - 1].map_values(read));
    }
}

/// The borrowing visitor that writes a graph on a tape. It copies each
/// leaf it is lent.
#[derive(Debug, Clone, Copy)]
pub struct Taping;

impl Visitor<Literal> for Taping {
    type Output = Vec<Datum>;

    type Summary = Seq<Entry<LiteralModel>>;

    open spec fn summary(out: &Vec<Datum>) -> Seq<Entry<LiteralModel>> {
        data(out@)
    }

    open spec fn primitive_seen(&self, prim: Primitive) -> Seq<Entry<LiteralModel>> {
        seq![Entry::Primitive(prim)]
    }

    open spec fn leaf_seen(&self, leaf: Literal) -> Seq<Entry<LiteralModel>> {
        seq![Entry::Leaf(leaf@)]
    }

    open spec fn leaf_ref_seen(&self, id: Identity, leaf: Literal) -> Seq<Entry<LiteralModel>> {
        seq![Entry::Shared(id.0, leaf@)]
    }

    open spec fn composite_seen(
        &self,
        name: Seq<char>,
        parts: Seq<Seq<Entry<LiteralModel>>>,
    ) -> Seq<Entry<LiteralModel>> {
        seq![Entry::Node(name, parts.len())] + spliced(parts, parts.len())
    }

    open spec fn forked(&self) -> Taping {
        *self
    }

    fn visited_primitive(self, prim: Primitive) -> (out: Vec<Datum>) {
        let mut out: Vec<Datum> = Vec::new();
        out.push(Datum::Primitive(prim));
        assert(data(out@) =~= seq![Entry::Primitive(prim)]);
        out
    }

    fn visited_leaf(self, leaf: &Literal) -> (out: Vec<Datum>) {
        let mut out: Vec<Datum> = Vec::new();
        out.push(Datum::Leaf(leaf.duplicate()));
        assert(data(out@) =~= seq![Entry::Leaf(leaf@)]);
        out
    }

    fn visited_leaf_ref(self, id: Identity, leaf: &Literal) -> (out: Vec<Datum>) {
        let mut out: Vec<Datum> = Vec::new();
        out.push(Datum::Shared(id.0, leaf.duplicate()));
        assert(data(out@) =~= seq![Entry::Shared(id.0, leaf@)]);
        out
    }

    fn visited_composite(self, info: &TypeInfo, parts: Vec<Vec<Datum>>) -> (out: Vec<Datum>) {
        let ghost tapes = Seq::new(parts@.len(), |i: int| parts@[i]@);
        let ghost read = |d: Datum| d@;
        let head = Datum::Node(info.name().clone(), parts.len());
        let out = splice(head, parts);
        proof {
            lemma_spliced_each(tapes, read, tapes.len());
            assert(Seq::new(tapes.len(), |i: int| tapes[i].map_values(read)) =~= Seq::new(
                parts@.len(),
                |i: int| <Taping as Visitor<Literal>>::summary(&parts@[i]),
            )) by {
                assert forall|i: int| 0 <= i < tapes.len() implies tapes[i].map_values(read)
                    == data(#[trigger] parts@[i]@) by {
                    assert(tapes[i].map_values(read) =~= data(parts@[i]@));
                }
            }
            assert(data(out@) =~= seq![head@] + spliced(tapes, tapes.len()).map_values(read));
        }
        out
    }

    fn fork(&self) -> (child: Taping) {
        Taping
    }
}

/// The owning visitor that writes a graph on a tape. The leaves on the
/// tape are the leaves of the graph: none is copied but those behind
/// references, which are not the graph's to give.
#[derive(Debug, Clone, Copy)]
pub struct TapingInto;

impl IntoVisitor<Literal> for TapingInto {
    type Output = Vec<Datum>;

    type Summary = Seq<Entry<Literal>>;

    open spec fn summary(out: &Vec<Datum>) -> Seq<Entry<Literal>> {
        entries(out@)
    }

    open spec fn primitive_seen(&self, prim: Primitive) -> Seq<Entry<Literal>> {
        seq![Entry::Primitive(prim)]
    }

    open spec fn leaf_seen(&self, leaf: Literal) -> Seq<Entry<Literal>> {
        seq![Entry::Leaf(leaf)]
    }

    open spec fn leaf_ref_seen(&self, id: Identity, leaf: Literal) -> Seq<Entry<Literal>> {
        seq![Entry::Shared(id.0, leaf@)]
    }

    open spec fn composite_seen(&self, name: Seq<char>, parts: Seq<Seq<Entry<Literal>>>) -> Seq<
        Entry<Literal>,
    > {
        seq![Entry::Node(name, parts.len())] + spliced(parts, parts.len())
    }

    open spec fn forked(&self) -> TapingInto {
        *self
    }

    fn visited_primitive(self, prim: Primitive) -> (out: Vec<Datum>) {
        let mut out: Vec<Datum> = Vec::new();
        out.push(Datum::Primitive(prim));
        assert(entries(out@) =~= seq![Entry::Primitive(prim)]);
        out
    }

    fn visited_leaf(self, leaf: Literal) -> (out: Vec<Datum>) {
        let mut out: Vec<Datum> = Vec::new();
        out.push(Datum::Leaf(leaf));
        assert(entries(out@) =~= seq![Entry::Leaf(leaf)]);
        out
    }

    fn visited_leaf_ref(self, id: Identity, leaf: &Literal) -> (out: Vec<Datum>) {
        let mut out: Vec<Datum> = Vec::new();
        out.push(Datum::Shared(id.0, leaf.duplicate()));
        assert(entries(out@) =~= seq![Entry::<Literal>::Shared(id.0, leaf@)]);
        out
    }

    fn visited_composite(self, info: &TypeInfo, parts: Vec<Vec<Datum>>) -> (out: Vec<Datum>) {
        let ghost tapes = Seq::new(parts@.len(), |i: int| parts@[i]@);
        let ghost read = |d: Datum| held(d);
        let head = Datum::Node(info.name().clone(), parts.len());
        let out = splice(head, parts);
        proof {
            lemma_spliced_each(tapes, read, tapes.len());
            assert(Seq::new(tapes.len(), |i: int| tapes[i].map_values(read)) =~= Seq::new(
                parts@.len(),
                |i: int| <TapingInto as IntoVisitor<Literal>>::summary(&parts@[i]),
            )) by {
                assert forall|i: int| 0 <= i < tapes.len() implies tapes[i].map_values(read)
                    == entries(#[trigger] parts@[i]@) by {
                    assert(tapes[i].map_values(read) =~= entries(parts@[i]@));
                }
            }
            assert(entries(out@) =~= seq![held(head)] + spliced(tapes, tapes.len()).map_values(
                read,
            ));
        }
        out
    }

    fn fork(&self) -> (child: TapingInto) {
        TapingInto
    }
}

/// A tape that graphs are written on, one behind the other.
#[derive(Debug, PartialEq, Eq)]
pub struct TapeWriter {
    tape: Vec<Datum>,
}

impl View for TapeWriter {
    type V = Seq<Datum>;

    closed spec fn view(&self) -> Seq<Datum> {
        self.tape@
    }
}

impl TapeWriter {
    /// A writer with an empty tape.
    pub fn new() -> (writer: TapeWriter)
        ensures
            writer@ == Seq::<Datum>::empty(),
    {
        TapeWriter { tape: Vec::new() }
    }

    /// The number of entries on the tape.
    pub fn len(&self) -> (n: usize)
        ensures
            n == self@.len(),
    {
        self.tape.len()
    }

    /// The tape, taken out of the writer.
    pub fn into_tape(self) -> (tape: Vec<Datum>)
        ensures
            tape@ == self@,
    {
        self.tape
    }
}

impl GraphSerializer<Literal> for TapeWriter {
    type Error = Error;

    /// Writes the graph behind what is on the tape, copying its leaves. It
    /// always succeeds.
    fn serialize<G: GraphSerialize<Literal>>(&mut self, g: &G) -> (r: Result<(), Error>)
        ensures
            r is Ok,
            data(final(self)@) == data(old(self)@) + visit_fold::<Literal, Taping>(Taping, g.tree()),
    {
        let mut items = g.visit::<Taping>(Taping);
        let ghost before = self.tape@;
        let ghost added = items@;
        self.tape.append(&mut items);
        assert(data(self.tape@) =~= data(before) + data(added));
        Ok(())
    }

    /// Writes the graph behind what is on the tape, moving its leaves there.
    /// It always succeeds.
    fn serialize_into<G: GraphSerialize<Literal>>(&mut self, g: G) -> (r: Result<(), Error>)
        ensures
            r is Ok,
            entries(final(self)@) == entries(old(self)@) + into_fold::<Literal, TapingInto>(
                TapingInto,
                g.tree(),
            ),
    {
        let ghost tree = g.tree();
        let mut items = g.visit_into::<TapingInto>(TapingInto);
        let ghost before = self.tape@;
        let ghost added = items@;
        self.tape.append(&mut items);
        assert(entries(self.tape@) =~= entries(before) + entries(added));
        Ok(())
    }
}

/// A graph read off a tape, and the place on the tape behind it.
pub struct Parsed {
    pub tree: Tree<Literal>,
    pub next: nat,
}

/// The graphs of the parts of a node read off a tape, and the place on the
/// tape behind them.
pub struct ParsedParts {
    pub trees: Seq<Tree<Literal>>,
    pub next: nat,
}

/// Reads a graph of the shape `s` off the tape, from the place `pos` on.
///
/// Where the tape has ended, a leaf is missing. A scalar must stand where
/// the shape has a scalar, and be of the kind the shape names: a scalar of
/// another kind is a type mismatch, anything else a schema mismatch. A
/// leaf, or a reference to one, must stand where the shape has a leaf:
/// anything else is a missing leaf.
/// The head of a node must stand where the shape has a node, with the
/// shape's name and number of parts: anything else is a schema mismatch;
/// the parts are read behind the head, one behind the other.
pub open spec fn parse(tape: Seq<Datum>, pos: nat, s: Schema) -> Result<Parsed, Error>
    decreases s, 0nat,
{
    if pos >= tape.len() {
        Err(Error::MissingLeaf { position: pos as usize })
    } else {
        match s {
            Schema::Primitive(ty) => match tape[pos as int] {
                Datum::Primitive(p) => if p.kind() == ty {
                    Ok(Parsed { tree: Tree::Primitive(p), next: pos + 1 })
                } else {
                    Err(
                        Error::TypeMismatch {
                            expected: ty,
                            found: p.kind(),
                            at: Some(pos as usize),
                        },
                    )
                },
                _ => Err(Error::SchemaMismatch { position: pos as usize }),
            },
            Schema::LeafRef => match tape[pos as int] {
                Datum::Leaf(l) => Ok(Parsed { tree: Tree::Leaf(l), next: pos + 1 }),
                Datum::Shared(token, l) => Ok(
                    Parsed { tree: Tree::Shared(Identity(token), l), next: pos + 1 },
                ),
                _ => Err(Error::MissingLeaf { position: pos as usize }),
            },
            Schema::Node(name, parts) => match tape[pos as int] {
                Datum::Node(n, count) => if n@ == name && count == parts.len() {
                    match parse_parts(tape, pos + 1, parts, parts.len()) {
                        Ok(read) => Ok(
                            Parsed { tree: Tree::Node(name, read.trees), next: read.next },
                        ),
                        Err(e) => Err(e),
                    }
                } else {
                    Err(Error::SchemaMismatch { position: pos as usize })
                },
                _ => Err(Error::SchemaMismatch { position: pos as usize }),
            },
        }
    }
}

/// Reads graphs of the first `k` shapes of a list off the tape, one behind
/// the other, from the place `pos` on. The first error ends the reading.
pub open spec fn parse_parts(tape: Seq<Datum>, pos: nat, parts: Seq<Schema>, k: nat) -> Result<
    ParsedParts,
    Error,
>
    decreases parts, k,
{
    if k == 0 || k > parts.len() {
        Ok(ParsedParts { trees: Seq::empty(), next: pos })
    } else {
        match parse_parts(tape, pos, parts, (k - 1) as nat) {
            Err(e) => Err(e),
            Ok(before) => match parse(tape, before.next, parts[k - 1]) {
                Err(e) => Err(e),
                Ok(one) => Ok(
                    ParsedParts { trees: before.trees.push(one.tree), next: one.next },
                ),
            },
        }
    }
}

/// An error in reading the first parts of a node is the error in reading
/// all of them.
proof fn lemma_parts_error(tape: Seq<Datum>, pos: nat, parts: Seq<Schema>, k: nat, n: nat)
    requires
        k <= n <= parts.len(),
        parse_parts(tape, pos, parts, k) is Err,
    ensures
        parse_parts(tape, pos, parts, n) == parse_parts(tape, pos, parts, k),
    decreases n,
{
    if n > k {
        lemma_parts_error(tape, pos, parts, k, (n - 1) as nat);
    }
}

/// Reads a graph of the shape that `outline` writes down off the tape, from
/// the place `pos` on, and drives the visitor over it.
fn read<V: Visitor<Literal>>(tape: &Vec<Datum>, pos: usize, outline: &Outline, v: V) -> (r: Result<
    (V::Output, usize),
    Error,
>)
    ensures
        match parse(tape@, pos as nat, outline@) {
            Ok(parsed) => r is Ok && V::summary(&r->Ok_0.0) == visit_fold::<Literal, V>(
                v,
                parsed.tree,
            ) && r->Ok_0.1 == parsed.next && parsed.next <= tape@.len(),
            Err(e) => r is Err && r->Err_0 == e,
        },
    decreases outline,
{
    if pos >= tape.len() {
        return Err(Error::MissingLeaf { position: pos });
    }
    match outline {
        Outline::Primitive(ty) => match &tape[pos] {
            Datum::Primitive(p) => {
                let found = p.primitive_type();
                if found == *ty {
                    Ok((v.visited_primitive(*p), pos + 1))
                } else {
                    Err(Error::TypeMismatch { expected: *ty, found, at: Some(pos) })
                }
            },
            _ => Err(Error::SchemaMismatch { position: pos }),
        },
        Outline::LeafRef => match &tape[pos] {
            Datum::Leaf(l) => Ok((v.visited_leaf(l), pos + 1)),
            Datum::Shared(token, l) => Ok((v.visited_leaf_ref(Identity(*token), l), pos + 1)),
            _ => Err(Error::MissingLeaf { position: pos }),
        },
        Outline::Node(name, parts) => {
            proof {
                lemma_view_node(*name, *parts);
            }
            match &tape[pos] {
                Datum::Node(n, count) => {
                    if !(*n == *name && *count == parts.len()) {
                        return Err(Error::SchemaMismatch { position: pos });
                    }
                    let ghost shapes = outlines(parts@);
                    let mut made: Vec<V::Output> = Vec::new();
                    let mut at: usize = pos + 1;
                    let mut i: usize = 0;
                    while i < parts.len()
                        invariant
                            i <= parts.len(),
                            *outline == Outline::Node(*name, *parts),
                            outline@ == Schema::Node(name@, shapes),
                            shapes == outlines(parts@),
                            pos < tape@.len(),
                            tape@[pos as int] == Datum::Node(*n, *count),
                            n@ == name@,
                            *count == parts@.len(),
                            at <= tape@.len(),
                            parse_parts(tape@, (pos + 1) as nat, shapes, i as nat) is Ok,
                            parse_parts(tape@, (pos + 1) as nat, shapes, i as nat)->Ok_0.next
                                == at,
                            made@.len() == i,
                            parse_parts(
                                tape@,
                                (pos + 1) as nat,
                                shapes,
                                i as nat,
                            )->Ok_0.trees.len() == i,
                            forall|k: int|
                                0 <= k < i ==> V::summary(&#[trigger] made@[k]) == visit_fold::<
                                    Literal,
                                    V,
                                >(
                                    v.forked(),
                                    parse_parts(
                                        tape@,
                                        (pos + 1) as nat,
                                        shapes,
                                        i as nat,
                                    )->Ok_0.trees[k],
                                ),
                        decreases parts.len() - i,
                    {
                        assert(decreases_to!(*outline => outline->Node_1));
                        assert(decreases_to!(*parts => parts@[i as int]));
                        match read(tape, at, &parts[i], v.fork()) {
                            Ok((out, next)) => {
                                made.push(out);
                                at = next;
                            },
                            Err(e) => {
                                proof {
                                    assert(shapes[i as int] == parts@[i as int]@);
                                    assert(parse(tape@, at as nat, shapes[i as int]) is Err);
                                    assert(parse_parts(
                                        tape@,
                                        (pos + 1) as nat,
                                        shapes,
                                        (i + 1) as nat,
                                    ) == Err::<ParsedParts, Error>(e));
                                    lemma_parts_error(
                                        tape@,
                                        (pos + 1) as nat,
                                        shapes,
                                        (i + 1) as nat,
                                        shapes.len(),
                                    );
                                }
                                return Err(e);
                            },
                        }
                        i += 1;
                    }
                    let ghost read_parts = parse_parts(
                        tape@,
                        (pos + 1) as nat,
                        shapes,
                        shapes.len(),
                    )->Ok_0;
                    let ghost summaries = Seq::new(made@.len(), |k: int| V::summary(&made@[k]));
                    proof {
                        lemma_visit_node::<Literal, V>(v, name@, read_parts.trees, summaries);
                    }
                    let info = TypeInfo::new(name.clone());
                    Ok((v.visited_composite(&info, made), at))
                },
                _ => Err(Error::SchemaMismatch { position: pos }),
            }
        },
    }
}

/// A tape that graphs are read off, one behind the other.
#[derive(Debug, PartialEq, Eq)]
pub struct TapeReader {
    tape: Vec<Datum>,
    pos: usize,
}

/// What a tape reader is, as a mathematical value: its tape, and the place
/// on the tape from which it reads next.
pub struct ReaderModel {
    pub tape: Seq<Datum>,
    pub pos: nat,
}

impl View for TapeReader {
    type V = ReaderModel;

    closed spec fn view(&self) -> ReaderModel {
        ReaderModel { tape: self.tape@, pos: self.pos as nat }
    }
}

impl TapeReader {
    /// A reader at the start of the tape.
    pub fn new(tape: Vec<Datum>) -> (reader: TapeReader)
        ensures
            reader@ == (ReaderModel { tape: tape@, pos: 0 }),
    {
        TapeReader { tape, pos: 0 }
    }

    /// The place on the tape from which the reader reads next.
    pub fn position(&self) -> (pos: usize)
        ensures
            pos == self@.pos,
    {
        self.pos
    }

    /// Whether the reader has read the whole tape.
    pub fn at_end(&self) -> (b: bool)
        ensures
            b == (self@.pos >= self@.tape.len()),
    {
        self.pos >= self.tape.len()
    }
}

impl GraphDeserializer<Literal> for TapeReader {
    type Err = Error;

    /// Reads a graph of the shape of `t` off the tape and drives the
    /// visitor over it, lending it the leaves on the tape. Where the tape
    /// holds such a graph at the reader's place, the reader moves behind
    /// it. Where it does not, the error says what is wrong and where, and
    /// the reader stays.
    fn deserialize<G: GraphModel<Literal>, V: Visitor<Literal>>(&mut self, t: &G, v: V) -> (r:
        Result<V::Output, Error>)
        ensures
            final(self)@.tape == old(self)@.tape,
            match parse(old(self)@.tape, old(self)@.pos, t.schema()) {
                Ok(parsed) => r is Ok && V::summary(&r->Ok_0) == visit_fold::<Literal, V>(
                    v,
                    parsed.tree,
                ) && final(self)@.pos == parsed.next,
                Err(e) => r is Err && r->Err_0 == e && final(self)@.pos == old(self)@.pos,
            },
    {
        let outline = outline_of::<Literal, G>(t);
        match read(&self.tape, self.pos, &outline, v) {
            Ok((out, next)) => {
                self.pos = next;
                Ok(out)
            },
            Err(e) => Err(e),
        }
    }
}

/// Whether a graph owns all its leaves: whether it holds no reference.
pub open spec fn owns_leaves(tree: Tree<Literal>) -> bool
    decreases tree, 0nat,
{
    match tree {
        Tree::Shared(_, _) => false,
        Tree::Node(_, parts) => own_leaves(parts, parts.len()),
        _ => true,
    }
}

/// Whether the first `k` graphs of a list own all their leaves.
pub open spec fn own_leaves(parts: Seq<Tree<Literal>>, k: nat) -> bool
    decreases parts, k,
{
    if k == 0 || k > parts.len() {
        true
    } else {
        owns_leaves(parts[k - 1]) && own_leaves(parts, (k - 1) as nat)
    }
}

/// Each of the first graphs of a list that own their leaves owns its leaves.
proof fn lemma_own_leaves_at(parts: Seq<Tree<Literal>>, k: nat, i: int)
    requires
        0 <= i < k <= parts.len(),
        own_leaves(parts, k),
    ensures
        owns_leaves(parts[i]),
    decreases k,
{
    if i < k - 1 {
        lemma_own_leaves_at(parts, (k - 1) as nat, i);
    }
}

/// What the owning visitor writes for a graph.
pub open spec fn taped(tree: Tree<Literal>) -> Seq<Entry<Literal>> {
    into_fold::<Literal, TapingInto>(TapingInto, tree)
}

/// What the owning visitor writes for each graph of a list.
pub open spec fn taped_each(parts: Seq<Tree<Literal>>) -> Seq<Seq<Entry<Literal>>> {
    into_fold_each::<Literal, TapingInto>(TapingInto, parts)
}

/// The first tapes of a list, spliced, are the start of more of them, spliced.
proof fn lemma_spliced_prefix<A>(parts: Seq<Seq<A>>, i: nat, k: nat)
    requires
        i <= k <= parts.len(),
    ensures
        spliced(parts, i).len() <= spliced(parts, k).len(),
        spliced(parts, k).subrange(0, spliced(parts, i).len() as int) == spliced(parts, i),
    decreases k,
{
    if i == k {
        assert(spliced(parts, k).subrange(0, spliced(parts, i).len() as int) =~= spliced(
            parts,
            i,
        ));
    } else {
        lemma_spliced_prefix(parts, i, (k - 1) as nat);
        assert(spliced(parts, k).subrange(0, spliced(parts, i).len() as int) =~= spliced(
            parts,
            (k - 1) as nat,
        ).subrange(0, spliced(parts, i).len() as int));
    }
}

/// Each tape of a list stands in the spliced list, behind the tapes before it.
proof fn lemma_spliced_part<A>(parts: Seq<Seq<A>>, i: nat)
    requires
        i < parts.len(),
    ensures
        spliced(parts, i).len() + parts[i as int].len() <= spliced(parts, parts.len()).len(),
        spliced(parts, parts.len()).subrange(
            spliced(parts, i).len() as int,
            (spliced(parts, i).len() + parts[i as int].len()) as int,
        ) == parts[i as int],
{
    let all = spliced(parts, parts.len());
    let upto = spliced(parts, i + 1);
    let off = spliced(parts, i).len();
    lemma_spliced_prefix(parts, i + 1, parts.len());
    assert(upto =~= spliced(parts, i) + parts[i as int]);
    let end = (off + parts[i as int].len()) as int;
    assert(all.subrange(off as int, end) =~= all.subrange(0, upto.len() as int).subrange(
        off as int,
        end,
    ));
    assert(upto.subrange(off as int, end) =~= parts[i as int]);
}

/// Every graph is written as at least one entry.
proof fn lemma_taped_nonempty(tree: Tree<Literal>)
    ensures
        taped(tree).len() >= 1,
{
}

/// Reading back what the owning visitor has written for a graph that owns
/// its leaves, from the place where it stands on a tape, gives the graph
/// itself, leaves and all, and ends behind what was written.
pub proof fn lemma_read_back(tape: Seq<Datum>, pos: nat, tree: Tree<Literal>)
    requires
        owns_leaves(tree),
        pos + taped(tree).len() <= tape.len(),
        entries(tape).subrange(pos as int, (pos + taped(tree).len()) as int) == taped(tree),
    ensures
        parse(tape, pos, schema_of(tree)) == Ok::<Parsed, Error>(
            Parsed { tree, next: pos + taped(tree).len() },
        ),
    decreases tree, 0nat,
{
    let written = taped(tree);
    let window = entries(tape).subrange(pos as int, (pos + written.len()) as int);
    lemma_taped_nonempty(tree);
    assert(window[0] == held(tape[pos as int]));
    match tree {
        Tree::Primitive(p) => {},
        Tree::Leaf(l) => {},
        Tree::Shared(_, _) => {},
        Tree::Node(name, parts) => {
            let folds = taped_each(parts);
            let n = parts.len();
            assert(written == seq![Entry::<Literal>::Node(name, folds.len())] + spliced(
                folds,
                folds.len(),
            ));
            assert(folds.len() == n);
            assert(schema_of(tree) == Schema::Node(name, schemas_of(parts)));
            assert forall|i: nat| i < n implies owns_leaves(parts[i as int]) && pos + 1 + spliced(
                folds,
                i,
            ).len() + taped(parts[i as int]).len() <= tape.len() && entries(tape).subrange(
                (pos + 1 + spliced(folds, i).len()) as int,
                (pos + 1 + spliced(folds, i).len() + taped(parts[i as int]).len()) as int,
            ) == taped(#[trigger] parts[i as int]) by {
                lemma_spliced_part(folds, i);
                lemma_own_leaves_at(parts, n, i as int);
                let off = spliced(folds, i).len();
                let len = folds[i as int].len();
                assert(folds[i as int] == taped(parts[i as int]));
                assert(entries(tape).subrange((pos + 1 + off) as int, (pos + 1 + off + len) as int)
                    =~= window.subrange((1 + off) as int, (1 + off + len) as int));
                assert(window.subrange((1 + off) as int, (1 + off + len) as int) =~= spliced(
                    folds,
                    folds.len(),
                ).subrange(off as int, (off + len) as int));
            }
            lemma_read_back_parts(tape, pos + 1, parts, n);
            assert(parts.take(n as int) =~= parts);
            assert(written.len() == 1 + spliced(folds, n).len());
        },
    }
}

/// Reading back what the owning visitor has written for the first `k`
/// parts of a node gives those parts.
proof fn lemma_read_back_parts(tape: Seq<Datum>, start: nat, parts: Seq<Tree<Literal>>, k: nat)
    requires
        k <= parts.len(),
        forall|i: nat|
            i < parts.len() ==> owns_leaves(parts[i as int]) && start + spliced(
                taped_each(parts),
                i,
            ).len() + taped(parts[i as int]).len() <= tape.len() && entries(tape).subrange(
                (start + spliced(taped_each(parts), i).len()) as int,
                (start + spliced(taped_each(parts), i).len() + taped(parts[i as int]).len()) as int,
            ) == taped(#[trigger] parts[i as int]),
    ensures
        parse_parts(tape, start, schemas_of(parts), k) == Ok::<ParsedParts, Error>(
            ParsedParts {
                trees: parts.take(k as int),
                next: start + spliced(taped_each(parts), k).len(),
            },
        ),
    decreases parts, k,
{
    let folds = taped_each(parts);
    if k == 0 {
        assert(parts.take(0) =~= Seq::<Tree<Literal>>::empty());
    } else {
        lemma_read_back_parts(tape, start, parts, (k - 1) as nat);
        let i = (k - 1) as nat;
        let part = parts[i as int];
        assert(taped(part) == taped(parts[i as int]));
        lemma_read_back(tape, start + spliced(folds, i).len(), part);
        assert(schemas_of(parts)[i as int] == schema_of(part));
        assert(folds[i as int] == taped(part));
        assert(parts.take(k as int) =~= parts.take(i as int).push(part));
    }
}

/// What serializing a graph that owns its leaves by value writes on an
/// empty tape, deserializing reads back as the same graph, and reads all
/// of it.
pub proof fn lemma_written_is_read(tape: Seq<Datum>, tree: Tree<Literal>)
    requires
        owns_leaves(tree),
        entries(tape) == taped(tree),
    ensures
        parse(tape, 0, schema_of(tree)) == Ok::<Parsed, Error>(
            Parsed { tree, next: tape.len() },
        ),
{
    assert(entries(tape).subrange(0, taped(tree).len() as int) =~= taped(tree));
    lemma_read_back(tape, 0, tree);
}

} // verus!
