use term_engine::error::{ExpressionError, OpError};
use term_engine::ops::{
    Coefficient, CountList, ListValue, Multiply, MultiplyListScalar, Op, TermValue, Value,
};
use term_engine::simple_engine::SimpleEngine;

#[test]
fn two_term() {
    let mut engine: SimpleEngine<Op> = SimpleEngine::new();

    let term1 = engine.term(Op::Value(Value { val: TermValue::Int(5) }));
    let term2 = engine.term(Op::Coefficient(Coefficient { operand: term1.term(), factor: 2 }));
    assert_eq!(*engine.eval(&term2).unwrap().get(), TermValue::Int(10));

    println!("OK");
}

#[test]
fn three_term_triangle() {
    let mut engine: SimpleEngine<Op> = SimpleEngine::new();

    let val_a = engine.term(Op::Value(Value { val: TermValue::Int(5) }));
    let val_b = engine.term(Op::Value(Value { val: TermValue::Int(4) }));

    let mult = engine.term(Op::Multiply(Multiply { a: val_a.term(), b: val_b.term() }));

    assert_eq!(*engine.eval(&mult).unwrap().get(), TermValue::Int(20));
}

#[test]
fn three_term_linear() {
    let mut engine: SimpleEngine<Op> = SimpleEngine::new();

    let val = engine.term(Op::Value(Value { val: TermValue::Int(5) }));
    let coef_a = engine.term(Op::Coefficient(Coefficient { operand: val.term(), factor: 4 }));

    let coef_b = engine.term(Op::Coefficient(Coefficient { operand: coef_a.term(), factor: 6 }));

    assert_eq!(*engine.eval(&coef_b).unwrap().get(), TermValue::Int(120));
}

#[test]
fn four_term_diamond() {
    let mut engine: SimpleEngine<Op> = SimpleEngine::new();

    let val = engine.term(Op::Value(Value { val: TermValue::Int(5) }));
    let coef_a = engine.term(Op::Coefficient(Coefficient {
        operand: val.clone().term(),
        factor: 4,
    }));

    let coef_b = engine.term(Op::Coefficient(Coefficient {
        operand: val.clone().term(),
        factor: 6,
    }));
    let mult = engine.term(Op::Multiply(Multiply { a: coef_a.term(), b: coef_b.term() }));

    assert_eq!(*engine.eval(&mult).unwrap().get(), TermValue::Int(600));
}

#[test]
fn random_list_expr() {
    let mut engine: SimpleEngine<Op> = SimpleEngine::new();

    let list = engine.term(Op::ListValue(ListValue { val: vec![0, 1, 2, 3] }));
    let val = engine.term(Op::Value(Value { val: TermValue::Int(5) }));

    let list_mul = engine.term(Op::MultiplyListScalar(MultiplyListScalar {
        l: list.term(),
        c: val.term(),
    }));

    assert_eq!(*engine.eval(&list_mul).unwrap().get(), TermValue::List(vec![0, 5, 10, 15]));
}

#[test]
fn sequential_list_expr() {
    let mut engine: SimpleEngine<Op> = SimpleEngine::new();

    let start = engine.term(Op::Value(Value { val: TermValue::Int(0) }));
    let end = engine.term(Op::Value(Value { val: TermValue::Int(10) }));
    let inc = engine.term(Op::Value(Value { val: TermValue::Int(2) }));

    let count = engine.term(Op::CountList(CountList {
        start: start.term(),
        end: end.term(),
        inc: inc.term(),
    }));

    assert_eq!(*engine.eval(&count).unwrap().get(), TermValue::List(vec![0, 2, 4, 6, 8, 10]));
}

#[test]
fn eval_is_idempotent() {
    let mut engine: SimpleEngine<Op> = SimpleEngine::new();

    let val = engine.term(Op::Value(Value { val: TermValue::Int(7) }));
    let coef = engine.term(Op::Coefficient(Coefficient { operand: val.term(), factor: 3 }));

    let first = engine.eval(&coef).unwrap();
    let second = engine.eval(&coef).unwrap();
    assert_eq!(*first.get(), TermValue::Int(21));
    assert_eq!(first.get(), second.get());

    // Evaluating an already-ready upstream node is a no-op success too.
    let up = engine.eval(&val).unwrap();
    assert_eq!(*up.get(), TermValue::Int(7));
}

#[test]
fn diamond_evaluates_shared_node_once() {
    let mut engine: SimpleEngine<Op> = SimpleEngine::new();

    let shared = engine.term(Op::Value(Value { val: TermValue::Int(5) }));
    let left = engine.term(Op::Coefficient(Coefficient { operand: shared.term(), factor: 4 }));
    let right = engine.term(Op::Coefficient(Coefficient { operand: shared.term(), factor: 6 }));
    let top = engine.term(Op::Multiply(Multiply { a: left.term(), b: right.term() }));

    assert_eq!(*engine.eval(&top).unwrap().get(), TermValue::Int(600));

    // The shared node was cached by the first walk; further requests
    // anywhere in the diamond answer from the caches unchanged.
    assert_eq!(*engine.eval(&shared).unwrap().get(), TermValue::Int(5));
    assert_eq!(*engine.eval(&left).unwrap().get(), TermValue::Int(20));
    assert_eq!(*engine.eval(&top).unwrap().get(), TermValue::Int(600));
}

#[test]
fn failure_propagates_to_dependents() {
    let mut engine: SimpleEngine<Op> = SimpleEngine::new();

    // A coefficient over a sequence is a kind mismatch: its computation
    // fails, and so must every transitive dependent.
    let list = engine.term(Op::ListValue(ListValue { val: vec![1, 2, 3] }));
    let bad = engine.term(Op::Coefficient(Coefficient { operand: list.term(), factor: 2 }));
    let downstream = engine.term(Op::Coefficient(Coefficient { operand: bad.term(), factor: 5 }));

    match engine.eval(&downstream) {
        Err(ExpressionError::Eval(OpError::KindMismatch)) => {},
        other => panic!("expected a kind mismatch, got {:?}", other.map(|r| r.get().clone())),
    }

    // The failing node was never marked ready, so a retry re-runs it and
    // reports the same failure.
    match engine.eval(&bad) {
        Err(ExpressionError::Eval(OpError::KindMismatch)) => {},
        other => panic!("expected a kind mismatch, got {:?}", other.map(|r| r.get().clone())),
    }

    // The healthy upstream node is unaffected.
    assert_eq!(*engine.eval(&list).unwrap().get(), TermValue::List(vec![1, 2, 3]));
}

#[test]
fn overflow_surfaces_as_eval_error() {
    let mut engine: SimpleEngine<Op> = SimpleEngine::new();

    let big = engine.term(Op::Value(Value { val: TermValue::Int(i64::MAX) }));
    let doubled = engine.term(Op::Coefficient(Coefficient { operand: big.term(), factor: 2 }));

    match engine.eval(&doubled) {
        Err(ExpressionError::Eval(OpError::Overflow)) => {},
        other => panic!("expected an overflow, got {:?}", other.map(|r| r.get().clone())),
    }
}

#[test]
fn counting_downwards_and_degenerate() {
    let mut engine: SimpleEngine<Op> = SimpleEngine::new();

    let start = engine.term(Op::Value(Value { val: TermValue::Int(10) }));
    let end = engine.term(Op::Value(Value { val: TermValue::Int(0) }));
    let inc = engine.term(Op::Value(Value { val: TermValue::Int(-2) }));
    let down = engine.term(Op::CountList(CountList {
        start: start.term(),
        end: end.term(),
        inc: inc.term(),
    }));
    assert_eq!(*engine.eval(&down).unwrap().get(), TermValue::List(vec![10, 8, 6, 4, 2, 0]));

    // A zero increment stops right after the start element.
    let zero = engine.term(Op::Value(Value { val: TermValue::Int(0) }));
    let stuck = engine.term(Op::CountList(CountList {
        start: start.term(),
        end: end.term(),
        inc: zero.term(),
    }));
    assert_eq!(*engine.eval(&stuck).unwrap().get(), TermValue::List(vec![10]));
}

#[test]
fn empty_list_times_scalar() {
    let mut engine: SimpleEngine<Op> = SimpleEngine::new();

    let list = engine.term(Op::ListValue(ListValue { val: vec![] }));
    let val = engine.term(Op::Value(Value { val: TermValue::Int(9) }));
    let prod = engine.term(Op::MultiplyListScalar(MultiplyListScalar {
        l: list.term(),
        c: val.term(),
    }));

    assert_eq!(*engine.eval(&prod).unwrap().get(), TermValue::List(vec![]));
}

#[test]
fn multiply_rejects_sequence_operand() {
    let mut engine: SimpleEngine<Op> = SimpleEngine::new();

    let a = engine.term(Op::Value(Value { val: TermValue::Int(3) }));
    let b = engine.term(Op::ListValue(ListValue { val: vec![1] }));
    let m = engine.term(Op::Multiply(Multiply { a: a.term(), b: b.term() }));

    match engine.eval(&m) {
        Err(ExpressionError::Eval(OpError::KindMismatch)) => {},
        other => panic!("expected a kind mismatch, got {:?}", other.map(|r| r.get().clone())),
    }
}

#[test]
fn list_scalar_product_rejects_swapped_kinds() {
    let mut engine: SimpleEngine<Op> = SimpleEngine::new();

    let scalar = engine.term(Op::Value(Value { val: TermValue::Int(2) }));
    let list = engine.term(Op::ListValue(ListValue { val: vec![1, 2] }));
    let swapped = engine.term(Op::MultiplyListScalar(MultiplyListScalar {
        l: scalar.term(),
        c: list.term(),
    }));

    match engine.eval(&swapped) {
        Err(ExpressionError::Eval(OpError::KindMismatch)) => {},
        other => panic!("expected a kind mismatch, got {:?}", other.map(|r| r.get().clone())),
    }
}

#[test]
fn counting_rejects_sequence_bounds() {
    let mut engine: SimpleEngine<Op> = SimpleEngine::new();

    let start = engine.term(Op::Value(Value { val: TermValue::Int(0) }));
    let end = engine.term(Op::ListValue(ListValue { val: vec![10] }));
    let inc = engine.term(Op::Value(Value { val: TermValue::Int(2) }));
    let count = engine.term(Op::CountList(CountList {
        start: start.term(),
        end: end.term(),
        inc: inc.term(),
    }));

    match engine.eval(&count) {
        Err(ExpressionError::Eval(OpError::KindMismatch)) => {},
        other => panic!("expected a kind mismatch, got {:?}", other.map(|r| r.get().clone())),
    }
}
