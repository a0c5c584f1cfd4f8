//! The errors of the crate.

use vstd::prelude::*;

use crate::types::PrimitiveType;

verus! {

/// The kind of node that stands on one side of a redex.
#[derive(Debug, Clone, Copy, PartialEq, Eq, Structural)]
pub enum AgentKind {
    Literal,
    Var,
    Label,
    Erase,
    Cons,
    Dup,
    Op,
    Args,
}

/// Why a redex could not be rewritten.
#[derive(Debug, Clone, Copy, PartialEq, Eq, Structural)]
pub enum ReductionFault {
    /// No rule is defined for this pair of agent kinds.
    NoRule,
    /// Two constructors met whose numbers of auxiliary ports differ.
    ArityMismatch,
    /// A variable met a term, and the variable occurs nowhere else in the net.
    UnboundVariable,
    /// The operator's name is not one the engine knows.
    UnknownOperator,
    /// The operands are literals, but not of the number or kinds the operator takes.
    BadOperands,
    /// The operator's result does not fit the operands' integer type.
    Overflow,
    /// An operand is neither a literal nor a variable that may still be bound.
    MalformedOperand,
    /// The net cannot name another fresh wire.
    WiresExhausted,
}

/// A failed reduction step: the position of the offending redex in the
/// worklist, the kinds of its two sides, and what went wrong.
#[derive(Debug, Clone, Copy, PartialEq, Eq, Structural)]
pub struct ReductionError {
    pub index: usize,
    pub lhs: AgentKind,
    pub rhs: AgentKind,
    pub fault: ReductionFault,
}

/// Every way an operation of this crate can fail.
#[derive(Debug, Clone, Copy, PartialEq, Eq, Structural)]
pub enum Error {
    /// An array's buffer does not hold as many elements as its shape asks for.
    ShapeMismatch,
    /// A scalar was asked for as one type and holds another; `at` is its
    /// place in the source, where it was met while reading one.
    TypeMismatch { expected: PrimitiveType, found: PrimitiveType, at: Option<usize> },
    /// A visitor met a node that the declared schema does not allow at `position`.
    SchemaMismatch { position: usize },
    /// The source ended, or held no leaf, where the schema expects one at `position`.
    MissingLeaf { position: usize },
    /// A redex could not be rewritten.
    Reduction(ReductionError),
    /// One identity token was seen with two different targets in one session.
    IdentityReuseViolation { token: u128 },
}

} // verus!
