use vstd::prelude::*;

verus! {

/// Failures of the engine's own caching machinery, as opposed to failures of
/// a node's user-supplied computation.
#[derive(Debug, Clone, Copy, PartialEq, Eq, Structural)]
pub enum EngineError {
    /// A result was read before it was ever calculated.
    GetNotCalculated,
    /// A result that was already calculated was calculated a second time.
    DoubleCalc,
}

/// The failure surfaced by evaluating a term: either the engine's own caching
/// contract was violated, or the node's computation itself reported an error.
#[derive(Debug, PartialEq, Eq)]
pub enum ExpressionError<EvalError> {
    Engine(EngineError),
    Eval(EvalError),
}

pub type EngineResult<T> = Result<T, EngineError>;

pub type ExpressionResult<T, E> = Result<T, ExpressionError<E>>;

/// Failures of the example operator nodes.
#[derive(Debug, Clone, Copy, PartialEq, Eq, Structural)]
pub enum OpError {
    /// Placeholder for operators that cannot fail.
    NeverError,
    /// An arithmetic result does not fit in the value type.
    Overflow,
    /// An operand did not hold the kind of value the operator needs.
    KindMismatch,
}

} // verus!
