use vstd::prelude::*;

use crate::error::{EngineError, EngineResult};
use crate::simple_engine::TermIndex;

verus! {

/// A handle to a registered node: it carries the node's opaque position in
/// the engine's table, and is what both `SimpleEngine::eval` and dependency
/// declarations are built from.
#[derive(Debug, Clone, Copy, PartialEq, Eq, Structural)]
pub struct Term {
    implementation: TermIndex,
}

impl View for Term {
    type V = int;

    closed spec fn view(&self) -> int {
        self.implementation@
    }
}

impl Term {
    pub fn new(implementation: TermIndex) -> (t: Self)
        ensures
            t@ == implementation@,
    {
        Term { implementation }
    }

    /// The node's position, for use in dependency sets and operator nodes.
    pub fn term(&self) -> (t: TermIndex)
        ensures
            t@ == self@,
    {
        self.implementation
    }
}

/// Read interface shared by the evaluated-term handles: a value and the
/// position of the node it came from.
pub trait TermLike {
    type Value;

    spec fn spec_value(&self) -> Self::Value;

    spec fn spec_term(&self) -> int;

    fn try_get(&self) -> (r: EngineResult<&Self::Value>)
        ensures
            r matches Ok(v) && *v == self.spec_value(),
    ;

    fn get_implementation(&self) -> (t: TermIndex)
        ensures
            t@ == self.spec_term(),
    ;
}

/// Builder for a node's dependency set: start empty, add the position of one
/// upstream term at a time, and hand the result to a registration call.
pub trait TermSet: Sized {
    spec fn positions(&self) -> Seq<int>;

    fn new() -> (s: Self)
        ensures
            s.positions() == Seq::<int>::empty(),
    ;

    fn add(self, term: TermIndex) -> (s: Self)
        ensures
            s.positions() == self.positions().push(term@),
    ;
}

} // verus!
