//! An embeddable lazy computation engine: callers assemble a directed
//! acyclic graph of computation nodes ("terms"), then request the value of
//! any node. Requesting a value evaluates exactly the not-yet-evaluated
//! transitive dependencies of that node, each at most once, and memoizes
//! every result in a single-assignment cache cell. Sequence-valued nodes
//! can compute their elements through a random-access parallel fan-out, a
//! strictly sequential producer, or a generator/map pipeline.

pub mod cell;
pub mod engine;
pub mod error;
pub mod expression;
pub mod generator;
pub mod list;
pub mod ops;
pub mod simple_engine;
