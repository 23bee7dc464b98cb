use vstd::prelude::*;

use crate::error::{EngineError, EngineResult};

verus! {

/// A single-assignment result slot: the memoization primitive every node's
/// cache is built on. It starts empty, accepts exactly one write, and is
/// readable any number of times afterwards. A second write is an error and
/// never silently ignored.
pub struct CacheCell<V> {
    slot: Option<V>,
}

impl<V> CacheCell<V> {
    /// The abstract state of the cell: `None` while empty, `Some(v)` once set.
    pub closed spec fn contents(&self) -> Option<V> {
        self.slot
    }

    pub fn new() -> (c: Self)
        ensures
            c.contents() is None,
    {
        CacheCell { slot: None }
    }

    /// Non-failing probe used as the memoization gate.
    pub fn is_set(&self) -> (r: bool)
        ensures
            r <==> self.contents() is Some,
    {
        self.slot.is_some()
    }

    /// Stores `value` if the slot is empty; rejects a second write.
    pub fn set(&mut self, value: V) -> (r: EngineResult<()>)
        ensures
            old(self).contents() is None ==> r is Ok && final(self).contents() == Some(value),
            old(self).contents() is Some ==> r == Err::<(), EngineError>(EngineError::DoubleCalc)
                && final(self).contents() == old(self).contents(),
    {
        if self.slot.is_some() {
            Err(EngineError::DoubleCalc)
        } else {
            self.slot = Some(value);
            Ok(())
        }
    }

    /// Returns the stored value of a cell that is known to be set.
    pub fn get(&self) -> (r: &V)
        requires
            self.contents() is Some,
        ensures
            Some(*r) == self.contents(),
    {
        self.slot.as_ref().unwrap()
    }

    /// Returns the stored value, or fails if the slot is still empty.
    /// Never blocks.
    pub fn try_get(&self) -> (r: EngineResult<&V>)
        ensures
            self.contents() matches Some(v) ==> r matches Ok(rv) && *rv == v,
            self.contents() is None ==> r == Err::<&V, EngineError>(EngineError::GetNotCalculated),
    {
        match &self.slot {
            Some(v) => Ok(v),
            None => Err(EngineError::GetNotCalculated),
        }
    }
}

} // verus!
