use vstd::prelude::*;

use crate::engine::TermLike;
use crate::error::{EngineError, EngineResult};
use crate::simple_engine::{IndexSet, TermIndex};

verus! {

/// The models of a sequence of borrowed values.
pub open spec fn view_refs<V: View>(s: Seq<&V>) -> Seq<V::V> {
    s.map_values(|r: &V| r@)
}

/// A result, with a successful value abstracted to its model.
pub open spec fn result_view<V: View, E>(r: Result<V, E>) -> Result<V::V, E> {
    match r {
        Ok(v) => Ok(v@),
        Err(e) => Err(e),
    }
}

/// A node's user-supplied computation. The engine evaluates the declared
/// dependencies first and hands their values to `eval`, in the order given
/// by `terms`; the computation itself is a pure function of those inputs.
/// Its contract is stated over the value type's mathematical model (its
/// `View`).
pub trait Expression: Sized {
    type Value: View;

    type Error;

    /// The positions of the direct dependencies, in evaluation order.
    spec fn spec_terms(&self) -> Seq<int>;

    /// What the computation yields for the given dependency models.
    spec fn spec_eval(&self, inputs: Seq<<Self::Value as View>::V>) -> Result<
        <Self::Value as View>::V,
        Self::Error,
    >;

    /// The declared dependency set, consumed at registration.
    fn terms(&self) -> (r: IndexSet)
        ensures
            r@ == self.spec_terms(),
    ;

    /// Runs the computation on the dependency values.
    fn eval(&self, inputs: &Vec<&Self::Value>) -> (r: Result<Self::Value, Self::Error>)
        requires
            inputs@.len() == self.spec_terms().len(),
        ensures
            result_view(r) == self.spec_eval(view_refs(inputs@)),
    ;

    /// Duplicates a value, so a result can be handed out while the cached
    /// copy stays in place.
    fn clone_value(value: &Self::Value) -> (r: Self::Value)
        ensures
            r@ == value@,
    ;
}

/// The outcome of evaluating a scalar term: the node's position together
/// with its computed value.
pub struct TermResult<V> {
    term: TermIndex,
    value: V,
}

impl<V> TermResult<V> {
    pub closed spec fn spec_value(&self) -> V {
        self.value
    }

    pub closed spec fn spec_term(&self) -> int {
        self.term@
    }

    pub(crate) fn make(term: TermIndex, value: V) -> (r: Self)
        ensures
            r.spec_value() == value,
            r.spec_term() == term@,
    {
        TermResult { term, value }
    }

    pub fn get(&self) -> (r: &V)
        ensures
            *r == self.spec_value(),
    {
        &self.value
    }

    pub fn try_get(&self) -> (r: EngineResult<&V>)
        ensures
            r matches Ok(v) && *v == self.spec_value(),
    {
        Ok(&self.value)
    }

    pub fn term(&self) -> (t: TermIndex)
        ensures
            t@ == self.spec_term(),
    {
        self.term
    }
}

impl<V> TermLike for TermResult<V> {
    type Value = V;

    closed spec fn spec_value(&self) -> V {
        self.value
    }

    closed spec fn spec_term(&self) -> int {
        self.term@
    }

    fn try_get(&self) -> (r: Result<&V, EngineError>) {
        TermResult::try_get(self)
    }

    fn get_implementation(&self) -> (t: TermIndex) {
        TermResult::term(self)
    }
}

/// The outcome of evaluating a sequence term: the node's position together
/// with the computed elements, which support length queries and indexing.
pub struct TermListResult<T> {
    term: TermIndex,
    items: Vec<T>,
}

impl<T> TermListResult<T> {
    pub closed spec fn spec_items(&self) -> Seq<T> {
        self.items@
    }

    pub closed spec fn spec_term(&self) -> int {
        self.term@
    }

    pub(crate) fn make(term: TermIndex, items: Vec<T>) -> (r: Self)
        ensures
            r.spec_items() == items@,
            r.spec_term() == term@,
    {
        TermListResult { term, items }
    }

    pub fn get(&self) -> (r: &Vec<T>)
        ensures
            r@ == self.spec_items(),
    {
        &self.items
    }

    pub fn try_get(&self) -> (r: EngineResult<&Vec<T>>)
        ensures
            r matches Ok(v) && v@ == self.spec_items(),
    {
        Ok(&self.items)
    }

    pub fn term(&self) -> (t: TermIndex)
        ensures
            t@ == self.spec_term(),
    {
        self.term
    }

    pub fn len(&self) -> (n: usize)
        ensures
            n == self.spec_items().len(),
    {
        self.items.len()
    }

    pub fn try_len(&self) -> (r: EngineResult<usize>)
        ensures
            r matches Ok(n) && n == self.spec_items().len(),
    {
        Ok(self.items.len())
    }

    /// The elements as a slice, in index order, for iteration.
    pub fn iter(&self) -> (r: &[T])
        ensures
            r@ == self.spec_items(),
    {
        self.items.as_slice()
    }
}

impl<T> TermLike for TermListResult<T> {
    type Value = Vec<T>;

    closed spec fn spec_value(&self) -> Vec<T> {
        self.items
    }

    closed spec fn spec_term(&self) -> int {
        self.term@
    }

    fn try_get(&self) -> (r: Result<&Vec<T>, EngineError>) {
        Ok(&self.items)
    }

    fn get_implementation(&self) -> (t: TermIndex) {
        TermListResult::term(self)
    }
}

} // verus!
