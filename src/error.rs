use vstd::prelude::*;
use crate::shape::Shape;

verus! {

/// The kind of a node, without its parameters; errors name it.
#[derive(Clone, Copy, Debug, PartialEq, Eq, Structural)]
pub enum OpKind {
    Placeholder,
    Constant,
    Variable,
    Add,
    Mul,
    MatMul,
    Relu,
    Sigmoid,
    Neg,
    Ln,
    Clip,
    Sum,
    Mean,
}

/// Everything that can go wrong while building, evaluating or differentiating a graph.
#[derive(Clone, Debug, PartialEq, Eq)]
pub enum GraphError {
    /// The shapes of an operation's operands cannot be reconciled, or a fed or
    /// seeded value does not have the shape that its node declares.
    ShapeMismatch { op: OpKind, lhs: Shape, rhs: Shape },
    /// A placeholder that the requested outputs depend on was not fed.
    MissingFeed { node: usize, name: String },
    /// The variable environment holds no variable of this name.
    UnknownVariable { name: String },
    /// A handle that does not name a node of this context.
    UnknownNode { node: usize },
    /// An operation's parameters leave its result undefined (a mean over an
    /// empty axis, a clip whose lower bound exceeds its upper bound).
    DomainError { op: OpKind, shape: Shape },
}

impl GraphError {
    /// The one-line description of the error's kind.
    pub open spec fn describe(&self) -> Seq<char> {
        match self {
            GraphError::ShapeMismatch { .. } => "shape mismatch"@,
            GraphError::MissingFeed { .. } => "missing feed for placeholder"@,
            GraphError::UnknownVariable { .. } => "unknown variable"@,
            GraphError::UnknownNode { .. } => "unknown node"@,
            GraphError::DomainError { .. } => "operation out of its domain"@,
        }
    }

    /// A one-line description of the error's kind.
    pub fn message(&self) -> (r: String)
        ensures
            r@ == self.describe(),
    {
        match self {
            GraphError::ShapeMismatch { .. } => String::from_str("shape mismatch"),
            GraphError::MissingFeed { .. } => String::from_str("missing feed for placeholder"),
            GraphError::UnknownVariable { .. } => String::from_str("unknown variable"),
            GraphError::UnknownNode { .. } => String::from_str("unknown node"),
            GraphError::DomainError { .. } => String::from_str("operation out of its domain"),
        }
    }
}

} // verus!
