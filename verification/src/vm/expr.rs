//! The terms of the interaction net: literals, wire ends, labels and
//! agents, with what they are as mathematical values, and the operators.

use vstd::prelude::*;

use crate::array::{Array, ArrayModel};
use crate::error::{AgentKind, ReductionFault};
use crate::types::PrimitiveType;
use crate::text::{decimal, decimal_text};
use vstd::string::{StrSliceExecFns, StringExecFns};

verus! {

/// A leaf value of a term: an array, a string or a scalar.
#[derive(Debug, PartialEq, Eq)]
pub enum Literal {
    Array(Array),
    String(String),
    Bool(bool),
    U8(u8),
    U16(u16),
    U32(u32),
    U64(u64),
    I8(i8),
    I16(i16),
    I32(i32),
    I64(i64),
}

/// What a [`Literal`] holds, as a mathematical value.
pub enum LiteralModel {
    Array(ArrayModel),
    String(Seq<char>),
    Bool(bool),
    U8(u8),
    U16(u16),
    U32(u32),
    U64(u64),
    I8(i8),
    I16(i16),
    I32(i32),
    I64(i64),
}

impl View for Literal {
    type V = LiteralModel;

    open spec fn view(&self) -> LiteralModel {
        match self {
            Literal::Array(a) => LiteralModel::Array(a@),
            Literal::String(s) => LiteralModel::String(s@),
            Literal::Bool(v) => LiteralModel::Bool(*v),
            Literal::U8(v) => LiteralModel::U8(*v),
            Literal::U16(v) => LiteralModel::U16(*v),
            Literal::U32(v) => LiteralModel::U32(*v),
            Literal::U64(v) => LiteralModel::U64(*v),
            Literal::I8(v) => LiteralModel::I8(*v),
            Literal::I16(v) => LiteralModel::I16(*v),
            Literal::I32(v) => LiteralModel::I32(*v),
            Literal::I64(v) => LiteralModel::I64(*v),
        }
    }
}

impl Literal {
    /// A copy of this literal that shares nothing with it.
    pub fn duplicate(&self) -> (out: Literal)
        ensures
            out@ == self@,
    {
        match self {
            Literal::Array(a) => Literal::Array(a.duplicate()),
            Literal::String(s) => Literal::String(s.clone()),
            Literal::Bool(v) => Literal::Bool(*v),
            Literal::U8(v) => Literal::U8(*v),
            Literal::U16(v) => Literal::U16(*v),
            Literal::U32(v) => Literal::U32(*v),
            Literal::U64(v) => Literal::U64(*v),
            Literal::I8(v) => Literal::I8(*v),
            Literal::I16(v) => Literal::I16(*v),
            Literal::I32(v) => Literal::I32(*v),
            Literal::I64(v) => Literal::I64(*v),
        }
    }
}

/// A term of the net: a leaf, a wire end, or an agent with the terms at its
/// auxiliary ports.
#[derive(Debug, PartialEq, Eq)]
pub enum Expr {
    /// A literal leaf.
    Literal(Literal),
    /// One end of a wire; the other end carries the same name.
    Var(String),
    /// A passive tag.
    Label(String),
    /// The eraser, with no auxiliary port.
    Erase,
    /// The constructor, with one auxiliary port for each element.
    Cons(Vec<Expr>),
    /// The duplicator, with two auxiliary ports.
    Dup(Box<Expr>, Box<Expr>),
    /// A named operator that waits for its operands.
    Op(String),
    /// The operands of an operator, in order.
    Args(Vec<Expr>),
}

/// What an [`Expr`] is, as a mathematical value.
pub enum Term {
    Literal(LiteralModel),
    Var(Seq<char>),
    Label(Seq<char>),
    Erase,
    Cons(Seq<Term>),
    Dup(Box<Term>, Box<Term>),
    Op(Seq<char>),
    Args(Seq<Term>),
}

/// The mathematical value of a term.
pub open spec fn term_of(e: Expr) -> Term
    decreases e,
{
    match e {
        Expr::Literal(l) => Term::Literal(l@),
        Expr::Var(name) => Term::Var(name@),
        Expr::Label(name) => Term::Label(name@),
        Expr::Erase => Term::Erase,
        Expr::Cons(items) => Term::Cons(
            Seq::new(
                items@.len(),
                |i: int|
                    if 0 <= i < items@.len() {
                        term_of(items@[i])
                    } else {
                        Term::Erase
                    },
            ),
        ),
        Expr::Dup(a, b) => Term::Dup(Box::new(term_of(*a)), Box::new(term_of(*b))),
        Expr::Op(name) => Term::Op(name@),
        Expr::Args(items) => Term::Args(
            Seq::new(
                items@.len(),
                |i: int|
                    if 0 <= i < items@.len() {
                        term_of(items@[i])
                    } else {
                        Term::Erase
                    },
            ),
        ),
    }
}

impl View for Expr {
    type V = Term;

    open spec fn view(&self) -> Term {
        term_of(*self)
    }
}

/// The views of a list of terms.
pub open spec fn terms(items: Seq<Expr>) -> Seq<Term> {
    Seq::new(items.len(), |i: int| items[i]@)
}

/// Whether a wire end named `name` stands anywhere in the term.
pub open spec fn occurs(t: Term, name: Seq<char>) -> bool
    decreases t, 0nat,
{
    match t {
        Term::Var(n) => n == name,
        Term::Cons(items) => occurs_within(items, name, items.len()),
        Term::Args(items) => occurs_within(items, name, items.len()),
        Term::Dup(a, b) => occurs(*a, name) || occurs(*b, name),
        _ => false,
    }
}

/// Whether a wire end named `name` stands in one of the first `k` terms of the list.
pub open spec fn occurs_within(items: Seq<Term>, name: Seq<char>, k: nat) -> bool
    decreases items, k,
{
    if k == 0 || k > items.len() {
        false
    } else {
        occurs(items[k - 1], name) || occurs_within(items, name, (k - 1) as nat)
    }
}

/// Whether a wire end named `name` stands in any term of the list.
pub open spec fn occurs_in_any(items: Seq<Term>, name: Seq<char>) -> bool {
    occurs_within(items, name, items.len())
}

/// A wire end stands in one of the first `k` terms exactly when it stands
/// in the term at some position before `k`.
pub proof fn lemma_occurs_within(items: Seq<Term>, name: Seq<char>, k: nat)
    requires
        k <= items.len(),
    ensures
        occurs_within(items, name, k) <==> exists|i: int|
            #![trigger items[i]]
            0 <= i < k && occurs(items[i], name),
    decreases k,
{
    if k > 0 {
        lemma_occurs_within(items, name, (k - 1) as nat);
        if occurs(items[k - 1], name) {
            assert(0 <= k - 1 < k && occurs(items[k - 1], name));
        }
    }
}

/// The term with `by` in place of every wire end named `name`.
pub open spec fn subst(t: Term, name: Seq<char>, by: Term) -> Term
    decreases t,
{
    match t {
        Term::Var(n) => if n == name {
            by
        } else {
            t
        },
        Term::Cons(items) => Term::Cons(
            Seq::new(
                items.len(),
                |i: int|
                    if 0 <= i < items.len() {
                        subst(items[i], name, by)
                    } else {
                        Term::Erase
                    },
            ),
        ),
        Term::Args(items) => Term::Args(
            Seq::new(
                items.len(),
                |i: int|
                    if 0 <= i < items.len() {
                        subst(items[i], name, by)
                    } else {
                        Term::Erase
                    },
            ),
        ),
        Term::Dup(a, b) => Term::Dup(Box::new(subst(*a, name, by)), Box::new(subst(*b, name, by))),
        _ => t,
    }
}

/// The kind of agent at the head of a term.
pub open spec fn kind_of(t: Term) -> AgentKind {
    match t {
        Term::Literal(_) => AgentKind::Literal,
        Term::Var(_) => AgentKind::Var,
        Term::Label(_) => AgentKind::Label,
        Term::Erase => AgentKind::Erase,
        Term::Cons(_) => AgentKind::Cons,
        Term::Dup(_, _) => AgentKind::Dup,
        Term::Op(_) => AgentKind::Op,
        Term::Args(_) => AgentKind::Args,
    }
}

/// The view of a constructor is the constructor of the views of its elements.
pub proof fn lemma_view_cons(items: Vec<Expr>)
    ensures
        Expr::Cons(items)@ == Term::Cons(terms(items@)),
{
    assert(Expr::Cons(items)@->Cons_0 =~= terms(items@));
}

/// The view of an operand list is the list of the views of its elements.
pub proof fn lemma_view_args(items: Vec<Expr>)
    ensures
        Expr::Args(items)@ == Term::Args(terms(items@)),
{
    assert(Expr::Args(items)@->Args_0 =~= terms(items@));
}

impl Expr {
    /// The kind of agent at the head of the term.
    pub fn kind(&self) -> (k: AgentKind)
        ensures
            k == kind_of(self@),
    {
        match self {
            Expr::Literal(_) => AgentKind::Literal,
            Expr::Var(_) => AgentKind::Var,
            Expr::Label(_) => AgentKind::Label,
            Expr::Erase => AgentKind::Erase,
            Expr::Cons(_) => AgentKind::Cons,
            Expr::Dup(_, _) => AgentKind::Dup,
            Expr::Op(_) => AgentKind::Op,
            Expr::Args(_) => AgentKind::Args,
        }
    }

    /// A copy of this term that shares nothing with it.
    pub fn duplicate(&self) -> (out: Expr)
        ensures
            out@ == self@,
        decreases self,
    {
        match self {
            Expr::Literal(l) => Expr::Literal(l.duplicate()),
            Expr::Var(name) => Expr::Var(name.clone()),
            Expr::Label(name) => Expr::Label(name.clone()),
            Expr::Erase => Expr::Erase,
            Expr::Cons(items) => {
                assert(decreases_to!(*self => self->Cons_0));
                let out = duplicate_all(items);
                proof {
                    lemma_view_cons(out);
                    lemma_view_cons(*items);
                }
                Expr::Cons(out)
            },
            Expr::Dup(a, b) => Expr::Dup(Box::new(a.duplicate()), Box::new(b.duplicate())),
            Expr::Op(name) => Expr::Op(name.clone()),
            Expr::Args(items) => {
                assert(decreases_to!(*self => self->Args_0));
                let out = duplicate_all(items);
                proof {
                    lemma_view_args(out);
                    lemma_view_args(*items);
                }
                Expr::Args(out)
            },
        }
    }

    /// Whether a wire end named `name` stands anywhere in the term.
    pub fn mentions(&self, name: &String) -> (b: bool)
        ensures
            b == occurs(self@, name@),
        decreases self,
    {
        match self {
            Expr::Var(n) => *n == *name,
            Expr::Cons(items) => {
                assert(decreases_to!(*self => self->Cons_0));
                proof {
                    lemma_view_cons(*items);
                }
                mentions_any(items, name)
            },
            Expr::Args(items) => {
                assert(decreases_to!(*self => self->Args_0));
                proof {
                    lemma_view_args(*items);
                }
                mentions_any(items, name)
            },
            Expr::Dup(a, b) => a.mentions(name) || b.mentions(name),
            _ => false,
        }
    }

    /// The term with a copy of `by` in place of every wire end named `name`.
    pub fn substitute(&self, name: &String, by: &Expr) -> (out: Expr)
        ensures
            out@ == subst(self@, name@, by@),
        decreases self,
    {
        match self {
            Expr::Var(n) => {
                if *n == *name {
                    by.duplicate()
                } else {
                    Expr::Var(n.clone())
                }
            },
            Expr::Cons(items) => {
                assert(decreases_to!(*self => self->Cons_0));
                let out = substitute_all(items, name, by);
                proof {
                    lemma_view_cons(out);
                    lemma_view_cons(*items);
                    assert(subst(self@, name@, by@)->Cons_0 =~= subst_each(
                        terms(items@),
                        name@,
                        by@,
                    ));
                }
                Expr::Cons(out)
            },
            Expr::Args(items) => {
                assert(decreases_to!(*self => self->Args_0));
                let out = substitute_all(items, name, by);
                proof {
                    lemma_view_args(out);
                    lemma_view_args(*items);
                    assert(subst(self@, name@, by@)->Args_0 =~= subst_each(
                        terms(items@),
                        name@,
                        by@,
                    ));
                }
                Expr::Args(out)
            },
            Expr::Dup(a, b) => Expr::Dup(
                Box::new(a.substitute(name, by)),
                Box::new(b.substitute(name, by)),
            ),
            Expr::Literal(l) => Expr::Literal(l.duplicate()),
            Expr::Label(n) => Expr::Label(n.clone()),
            Expr::Erase => Expr::Erase,
            Expr::Op(n) => Expr::Op(n.clone()),
        }
    }
}

/// Each term of the list with `by` in place of every wire end named `name`.
pub open spec fn subst_each(items: Seq<Term>, name: Seq<char>, by: Term) -> Seq<Term> {
    Seq::new(items.len(), |i: int| subst(items[i], name, by))
}

/// Copies of the terms of a list.
fn duplicate_all(items: &Vec<Expr>) -> (out: Vec<Expr>)
    ensures
        terms(out@) == terms(items@),
    decreases items,
{
    let mut out: Vec<Expr> = Vec::new();
    let mut i: usize = 0;
    while i < items.len()
        invariant
            i <= items.len(),
            out.len() == i,
            forall|k: int| 0 <= k < i ==> out@[k]@ == items@[k]@,
        decreases items.len() - i,
    {
        assert(decreases_to!(*items => items@[i as int]));
        out.push(items[i].duplicate());
        i += 1;
    }
    assert(terms(out@) =~= terms(items@));
    out
}

/// Whether a wire end named `name` stands in any term of the list.
fn mentions_any(items: &Vec<Expr>, name: &String) -> (b: bool)
    ensures
        b == occurs_in_any(terms(items@), name@),
    decreases items,
{
    let mut i: usize = 0;
    while i < items.len()
        invariant
            i <= items.len(),
            !occurs_within(terms(items@), name@, i as nat),
        decreases items.len() - i,
    {
        assert(decreases_to!(*items => items@[i as int]));
        if items[i].mentions(name) {
            proof {
                lemma_occurs_within(terms(items@), name@, items@.len());
                assert(occurs(terms(items@)[i as int], name@));
            }
            return true;
        }
        i += 1;
    }
    false
}

/// The terms of a list, each with a copy of `by` for every wire end named `name`.
fn substitute_all(items: &Vec<Expr>, name: &String, by: &Expr) -> (out: Vec<Expr>)
    ensures
        terms(out@) == subst_each(terms(items@), name@, by@),
    decreases items,
{
    let mut out: Vec<Expr> = Vec::new();
    let mut i: usize = 0;
    while i < items.len()
        invariant
            i <= items.len(),
            out.len() == i,
            forall|k: int| 0 <= k < i ==> out@[k]@ == subst(items@[k]@, name@, by@),
        decreases items.len() - i,
    {
        assert(decreases_to!(*items => items@[i as int]));
        out.push(items[i].substitute(name, by));
        i += 1;
    }
    assert(terms(out@) =~= subst_each(terms(items@), name@, by@));
    out
}

/// The kind of an integer literal; nothing for any other term.
pub open spec fn integer_kind(t: Term) -> Option<PrimitiveType> {
    match t {
        Term::Literal(LiteralModel::U8(_)) => Some(PrimitiveType::U8),
        Term::Literal(LiteralModel::U16(_)) => Some(PrimitiveType::U16),
        Term::Literal(LiteralModel::U32(_)) => Some(PrimitiveType::U32),
        Term::Literal(LiteralModel::U64(_)) => Some(PrimitiveType::U64),
        Term::Literal(LiteralModel::I8(_)) => Some(PrimitiveType::I8),
        Term::Literal(LiteralModel::I16(_)) => Some(PrimitiveType::I16),
        Term::Literal(LiteralModel::I32(_)) => Some(PrimitiveType::I32),
        Term::Literal(LiteralModel::I64(_)) => Some(PrimitiveType::I64),
        _ => None,
    }
}

/// The value of an integer literal; zero for any other term.
pub open spec fn integer_value(t: Term) -> int {
    match t {
        Term::Literal(LiteralModel::U8(v)) => v as int,
        Term::Literal(LiteralModel::U16(v)) => v as int,
        Term::Literal(LiteralModel::U32(v)) => v as int,
        Term::Literal(LiteralModel::U64(v)) => v as int,
        Term::Literal(LiteralModel::I8(v)) => v as int,
        Term::Literal(LiteralModel::I16(v)) => v as int,
        Term::Literal(LiteralModel::I32(v)) => v as int,
        Term::Literal(LiteralModel::I64(v)) => v as int,
        _ => 0,
    }
}

/// Whether both terms are integer literals of one kind.
pub open spec fn integers_of_one_kind(a: Term, b: Term) -> bool {
    integer_kind(a) is Some && integer_kind(a) == integer_kind(b)
}

/// The truth value of a boolean literal; nothing for any other term.
pub open spec fn boolean_of(t: Term) -> Option<bool> {
    match t {
        Term::Literal(LiteralModel::Bool(v)) => Some(v),
        _ => None,
    }
}

/// Whether `v` is a value of the integer kind `kind`.
pub open spec fn fits(kind: PrimitiveType, v: int) -> bool {
    match kind {
        PrimitiveType::U8 => 0 <= v <= 0xff,
        PrimitiveType::U16 => 0 <= v <= 0xffff,
        PrimitiveType::U32 => 0 <= v <= 0xffff_ffff,
        PrimitiveType::U64 => 0 <= v <= 0xffff_ffff_ffff_ffff,
        PrimitiveType::I8 => -0x80 <= v <= 0x7f,
        PrimitiveType::I16 => -0x8000 <= v <= 0x7fff,
        PrimitiveType::I32 => -0x8000_0000 <= v <= 0x7fff_ffff,
        PrimitiveType::I64 => -0x8000_0000_0000_0000 <= v <= 0x7fff_ffff_ffff_ffff,
        _ => false,
    }
}

/// The literal of integer kind `kind` with the value `v`, where `v` fits.
pub open spec fn integer_literal(kind: PrimitiveType, v: int) -> LiteralModel {
    match kind {
        PrimitiveType::U8 => LiteralModel::U8(v as u8),
        PrimitiveType::U16 => LiteralModel::U16(v as u16),
        PrimitiveType::U32 => LiteralModel::U32(v as u32),
        PrimitiveType::U64 => LiteralModel::U64(v as u64),
        PrimitiveType::I8 => LiteralModel::I8(v as i8),
        PrimitiveType::I16 => LiteralModel::I16(v as i16),
        PrimitiveType::I32 => LiteralModel::I32(v as i32),
        PrimitiveType::I64 => LiteralModel::I64(v as i64),
        _ => LiteralModel::Bool(false),
    }
}

/// What an arithmetic operator computes on two integers.
pub open spec fn arithmetic(name: Seq<char>, a: int, b: int) -> int {
    if name == "add"@ {
        a + b
    } else if name == "sub"@ {
        a - b
    } else {
        a * b
    }
}

/// What an operator gives on its operands.
///
/// `add`, `sub` and `mul` take two integer literals of one kind and give a
/// literal of that kind, or overflow where the exact result is not a value
/// of the kind. `eq` takes two integer literals of one kind, or two boolean
/// literals, and says whether they are equal. `and` and `or` take two
/// boolean literals, `not` takes one. Any other operands are bad operands,
/// and any other name is an unknown operator.
pub open spec fn apply_op(name: Seq<char>, operands: Seq<Term>) -> Result<
    LiteralModel,
    ReductionFault,
> {
    if name == "add"@ || name == "sub"@ || name == "mul"@ {
        if operands.len() == 2 && integers_of_one_kind(operands[0], operands[1]) {
            let kind = integer_kind(operands[0])->0;
            let v = arithmetic(name, integer_value(operands[0]), integer_value(operands[1]));
            if fits(kind, v) {
                Ok(integer_literal(kind, v))
            } else {
                Err(ReductionFault::Overflow)
            }
        } else {
            Err(ReductionFault::BadOperands)
        }
    } else if name == "eq"@ {
        if operands.len() == 2 && integers_of_one_kind(operands[0], operands[1]) {
            Ok(LiteralModel::Bool(integer_value(operands[0]) == integer_value(operands[1])))
        } else if operands.len() == 2 && boolean_of(operands[0]) is Some && boolean_of(
            operands[1],
        ) is Some {
            Ok(LiteralModel::Bool(boolean_of(operands[0])->0 == boolean_of(operands[1])->0))
        } else {
            Err(ReductionFault::BadOperands)
        }
    } else if name == "and"@ || name == "or"@ {
        if operands.len() == 2 && boolean_of(operands[0]) is Some && boolean_of(
            operands[1],
        ) is Some {
            let a = boolean_of(operands[0])->0;
            let b = boolean_of(operands[1])->0;
            Ok(LiteralModel::Bool(if name == "and"@ { a && b } else { a || b }))
        } else {
            Err(ReductionFault::BadOperands)
        }
    } else if name == "not"@ {
        if operands.len() == 1 && boolean_of(operands[0]) is Some {
            Ok(LiteralModel::Bool(!boolean_of(operands[0])->0))
        } else {
            Err(ReductionFault::BadOperands)
        }
    } else {
        Err(ReductionFault::UnknownOperator)
    }
}

impl Expr {
    /// The kind and the value of an integer literal; nothing for any other term.
    pub fn as_integer(&self) -> (r: Option<(PrimitiveType, i128)>)
        ensures
            r is Some <==> integer_kind(self@) is Some,
            r matches Some((kind, v)) ==> integer_kind(self@) == Some(kind) && integer_value(self@)
                == v && fits(kind, v as int),
    {
        match self {
            Expr::Literal(Literal::U8(v)) => Some((PrimitiveType::U8, *v as i128)),
            Expr::Literal(Literal::U16(v)) => Some((PrimitiveType::U16, *v as i128)),
            Expr::Literal(Literal::U32(v)) => Some((PrimitiveType::U32, *v as i128)),
            Expr::Literal(Literal::U64(v)) => Some((PrimitiveType::U64, *v as i128)),
            Expr::Literal(Literal::I8(v)) => Some((PrimitiveType::I8, *v as i128)),
            Expr::Literal(Literal::I16(v)) => Some((PrimitiveType::I16, *v as i128)),
            Expr::Literal(Literal::I32(v)) => Some((PrimitiveType::I32, *v as i128)),
            Expr::Literal(Literal::I64(v)) => Some((PrimitiveType::I64, *v as i128)),
            _ => None,
        }
    }

    /// The truth value of a boolean literal; nothing for any other term.
    pub fn as_boolean(&self) -> (r: Option<bool>)
        ensures
            r == boolean_of(self@),
    {
        match self {
            Expr::Literal(Literal::Bool(v)) => Some(*v),
            _ => None,
        }
    }
}

impl Literal {
    /// The literal of integer kind `kind` with the value `v`, or nothing
    /// where `v` is not a value of that kind.
    pub fn from_integer(kind: PrimitiveType, v: i128) -> (r: Option<Literal>)
        ensures
            r is Some <==> fits(kind, v as int),
            r matches Some(l) ==> l@ == integer_literal(kind, v as int),
    {
        match kind {
            PrimitiveType::U8 => {
                if 0 <= v && v <= 0xff {
                    Some(Literal::U8(v as u8))
                } else {
                    None
                }
            },
            PrimitiveType::U16 => {
                if 0 <= v && v <= 0xffff {
                    Some(Literal::U16(v as u16))
                } else {
                    None
                }
            },
            PrimitiveType::U32 => {
                if 0 <= v && v <= 0xffff_ffff {
                    Some(Literal::U32(v as u32))
                } else {
                    None
                }
            },
            PrimitiveType::U64 => {
                if 0 <= v && v <= 0xffff_ffff_ffff_ffff {
                    Some(Literal::U64(v as u64))
                } else {
                    None
                }
            },
            PrimitiveType::I8 => {
                if -0x80 <= v && v <= 0x7f {
                    Some(Literal::I8(v as i8))
                } else {
                    None
                }
            },
            PrimitiveType::I16 => {
                if -0x8000 <= v && v <= 0x7fff {
                    Some(Literal::I16(v as i16))
                } else {
                    None
                }
            },
            PrimitiveType::I32 => {
                if -0x8000_0000 <= v && v <= 0x7fff_ffff {
                    Some(Literal::I32(v as i32))
                } else {
                    None
                }
            },
            PrimitiveType::I64 => {
                if -0x8000_0000_0000_0000 <= v && v <= 0x7fff_ffff_ffff_ffff {
                    Some(Literal::I64(v as i64))
                } else {
                    None
                }
            },
            _ => None,
        }
    }
}

/// Whether `name` spells `word`.
fn spells(name: &String, word: &str) -> (b: bool)
    ensures
        b == (name@ == word@),
{
    let other = String::from_str(word);
    *name == other
}

/// Applies the operator `name` to `operands`.
pub fn apply_operator(name: &String, operands: &Vec<Expr>) -> (r: Result<Literal, ReductionFault>)
    ensures
        r is Ok <==> apply_op(name@, terms(operands@)) is Ok,
        r matches Ok(l) ==> apply_op(name@, terms(operands@)) == Ok::<LiteralModel, ReductionFault>(l@),
        r matches Err(f) ==> apply_op(name@, terms(operands@)) == Err::<LiteralModel, ReductionFault>(f),
{
    let ghost ops = terms(operands@);
    let is_add = spells(name, "add");
    let is_sub = spells(name, "sub");
    let is_mul = spells(name, "mul");
    if is_add || is_sub || is_mul {
        if operands.len() != 2 {
            return Err(ReductionFault::BadOperands);
        }
        let (ka, a) = match operands[0].as_integer() {
            Some(p) => p,
            None => {
                return Err(ReductionFault::BadOperands);
            },
        };
        let (kb, b) = match operands[1].as_integer() {
            Some(p) => p,
            None => {
                return Err(ReductionFault::BadOperands);
            },
        };
        if ka != kb {
            return Err(ReductionFault::BadOperands);
        }
        assert(fits(ka, a as int) && fits(ka, b as int));
        let exact: Option<i128> = if is_add {
            Some(a + b)
        } else if is_sub {
            Some(a - b)
        } else {
            let p = a.checked_mul(b);
            proof {
                if p is None {
                    lemma_product_past_every_kind(ka, a as int, b as int);
                }
            }
            p
        };
        match exact {
            Some(v) => match Literal::from_integer(ka, v) {
                Some(l) => Ok(l),
                None => Err(ReductionFault::Overflow),
            },
            None => Err(ReductionFault::Overflow),
        }
    } else if spells(name, "eq") {
        if operands.len() != 2 {
            return Err(ReductionFault::BadOperands);
        }
        match (operands[0].as_integer(), operands[1].as_integer()) {
            (Some((ka, a)), Some((kb, b))) => {
                if ka == kb {
                    return Ok(Literal::Bool(a == b));
                }
            },
            _ => {},
        }
        match (operands[0].as_boolean(), operands[1].as_boolean()) {
            (Some(a), Some(b)) => Ok(Literal::Bool(a == b)),
            _ => Err(ReductionFault::BadOperands),
        }
    } else {
        let is_and = spells(name, "and");
        let is_or = spells(name, "or");
        if is_and || is_or {
            if operands.len() != 2 {
                return Err(ReductionFault::BadOperands);
            }
            match (operands[0].as_boolean(), operands[1].as_boolean()) {
                (Some(a), Some(b)) => Ok(Literal::Bool(if is_and { a && b } else { a || b })),
                _ => Err(ReductionFault::BadOperands),
            }
        } else if spells(name, "not") {
            if operands.len() != 1 {
                return Err(ReductionFault::BadOperands);
            }
            match operands[0].as_boolean() {
                Some(a) => Ok(Literal::Bool(!a)),
                None => Err(ReductionFault::BadOperands),
            }
        } else {
            Err(ReductionFault::UnknownOperator)
        }
    }
}

/// A product of two values of one integer kind that does not fit 128 bits
/// is not a value of that kind.
proof fn lemma_product_past_every_kind(kind: PrimitiveType, a: int, b: int)
    requires
        fits(kind, a),
        fits(kind, b),
        a * b > i128::MAX || a * b < i128::MIN,
    ensures
        !fits(kind, a * b),
{
}

/// The name of the `k`-th wire that a net introduces: `prefix` dollar signs,
/// then `k` in decimal.
pub open spec fn wire_name(prefix: nat, k: nat) -> Seq<char> {
    Seq::new(prefix, |i: int| '$') + decimal(k)
}

/// The name of the `k`-th wire of a net whose wire names start with
/// `prefix` dollar signs.
pub fn wire(prefix: usize, k: u64) -> (name: String)
    ensures
        name@ == wire_name(prefix as nat, k as nat),
{
    let mut name = String::new();
    let mut i: usize = 0;
    proof {
        reveal_strlit("$");
    }
    while i < prefix
        invariant
            i <= prefix,
            name@ == Seq::new(i as nat, |j: int| '$'),
            "$"@ == seq!['$'],
        decreases prefix - i,
    {
        name.append("$");
        i += 1;
        assert(name@ =~= Seq::new(i as nat, |j: int| '$'));
    }
    let digits = decimal_text(k);
    name.append(digits.as_str());
    name
}

/// The number of characters of the longest wire name in the term.
pub open spec fn longest(t: Term) -> nat
    decreases t, 0nat,
{
    match t {
        Term::Var(n) => n.len(),
        Term::Cons(items) => longest_within(items, items.len()),
        Term::Args(items) => longest_within(items, items.len()),
        Term::Dup(a, b) => larger(longest(*a), longest(*b)),
        _ => 0,
    }
}

/// The number of characters of the longest wire name in the first `k` terms.
pub open spec fn longest_within(items: Seq<Term>, k: nat) -> nat
    decreases items, k,
{
    if k == 0 || k > items.len() {
        0
    } else {
        larger(longest(items[k - 1]), longest_within(items, (k - 1) as nat))
    }
}

/// The larger of two natural numbers.
pub open spec fn larger(a: nat, b: nat) -> nat {
    if a >= b {
        a
    } else {
        b
    }
}

impl Expr {
    /// The number of characters of the longest wire name in the term.
    pub fn longest_name(&self) -> (n: usize)
        ensures
            n == longest(self@),
        decreases self,
    {
        match self {
            Expr::Var(name) => name.as_str().unicode_len(),
            Expr::Cons(items) => {
                assert(decreases_to!(*self => self->Cons_0));
                proof {
                    lemma_view_cons(*items);
                }
                longest_name_of(items)
            },
            Expr::Args(items) => {
                assert(decreases_to!(*self => self->Args_0));
                proof {
                    lemma_view_args(*items);
                }
                longest_name_of(items)
            },
            Expr::Dup(a, b) => {
                let x = a.longest_name();
                let y = b.longest_name();
                if x >= y {
                    x
                } else {
                    y
                }
            },
            _ => 0,
        }
    }
}

/// The number of characters of the longest wire name in the terms of a list.
fn longest_name_of(items: &Vec<Expr>) -> (n: usize)
    ensures
        n == longest_within(terms(items@), items@.len()),
    decreases items,
{
    let mut n: usize = 0;
    let mut i: usize = 0;
    while i < items.len()
        invariant
            i <= items.len(),
            n == longest_within(terms(items@), i as nat),
        decreases items.len() - i,
    {
        assert(decreases_to!(*items => items@[i as int]));
        let m = items[i].longest_name();
        if m > n {
            n = m;
        }
        i += 1;
    }
    n
}

/// The storage that a term representation uses for its parts: the types
/// of its string and array literals, of a boxed subterm, of the element
/// lists of constructors and operand lists, and of the names of wires,
/// operators and labels.
pub trait Context: Sized {
    type StringLiteral;

    type ArrayLiteral;

    type TreeRef;

    type ConsElems;

    type ArgElems;

    type VarRef;

    type OpRef;

    type LabelRef;
}

/// The storage of a term that owns all its parts.
#[derive(Debug, Clone, Copy, PartialEq, Eq)]
pub struct LocalContext;

impl Context for LocalContext {
    type StringLiteral = String;

    type ArrayLiteral = Array;

    type TreeRef = Box<Expr>;

    type ConsElems = Vec<Expr>;

    type ArgElems = Vec<Expr>;

    type VarRef = String;

    type OpRef = String;

    type LabelRef = String;
}

/// The eraser agent.
#[derive(Debug, Clone, Copy, PartialEq, Eq)]
pub struct Erase;

/// The duplicator agent, with the terms at its two auxiliary ports.
pub struct Dup<C: Context = LocalContext>(pub C::TreeRef, pub C::TreeRef);

/// One end of a wire, by the wire's name.
pub struct Var<C: Context = LocalContext>(pub C::VarRef);

/// A passive tag, by its name.
pub struct Label<C: Context = LocalContext>(pub C::LabelRef);

/// The constructor agent, with the terms at its auxiliary ports.
pub struct Cons<C: Context = LocalContext>(pub C::ConsElems);

/// An operator, by its name.
pub struct Op<C: Context = LocalContext>(pub C::OpRef);

/// The operands of an operator, in order.
pub struct Args<C: Context = LocalContext>(pub C::ArgElems);

impl Erase {
    /// The eraser as a term.
    pub fn into_expr(self) -> (e: Expr)
        ensures
            e@ == Term::Erase,
    {
        Expr::Erase
    }
}

impl Dup<LocalContext> {
    /// The duplicator as a term.
    pub fn into_expr(self) -> (e: Expr)
        ensures
            e@ == Term::Dup(Box::new((*self.0)@), Box::new((*self.1)@)),
    {
        Expr::Dup(self.0, self.1)
    }
}

impl Var<LocalContext> {
    /// The wire end as a term.
    pub fn into_expr(self) -> (e: Expr)
        ensures
            e@ == Term::Var(self.0@),
    {
        Expr::Var(self.0)
    }
}

impl Label<LocalContext> {
    /// The label as a term.
    pub fn into_expr(self) -> (e: Expr)
        ensures
            e@ == Term::Label(self.0@),
    {
        Expr::Label(self.0)
    }
}

impl Cons<LocalContext> {
    /// The constructor as a term.
    pub fn into_expr(self) -> (e: Expr)
        ensures
            e@ == Term::Cons(terms(self.0@)),
    {
        proof {
            lemma_view_cons(self.0);
        }
        Expr::Cons(self.0)
    }
}

impl Op<LocalContext> {
    /// The operator as a term.
    pub fn into_expr(self) -> (e: Expr)
        ensures
            e@ == Term::Op(self.0@),
    {
        Expr::Op(self.0)
    }
}

impl Args<LocalContext> {
    /// The operand list as a term.
    pub fn into_expr(self) -> (e: Expr)
        ensures
            e@ == Term::Args(terms(self.0@)),
    {
        proof {
            lemma_view_args(self.0);
        }
        Expr::Args(self.0)
    }
}

} // verus!

pub use crate::vm::net::{Net, Redex};
