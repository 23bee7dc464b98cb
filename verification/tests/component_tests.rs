use term_engine::cell::CacheCell;
use term_engine::engine::{TermLike, TermSet};
use term_engine::error::{EngineError, OpError};
use term_engine::expression::Expression;
use term_engine::generator::{drain, Generator, VecGenerator};
use term_engine::list::{random_list_eval, sequential_list_eval, SequentialListExpression};
use term_engine::ops::{list_result, CountList, MultiplyListScalar, Op, TermValue, Value};
use term_engine::simple_engine::{IndexSet, SimpleEngine};

#[test]
fn cell_is_single_assignment() {
    let mut cell: CacheCell<i64> = CacheCell::new();
    assert!(!cell.is_set());
    assert_eq!(cell.try_get(), Err(EngineError::GetNotCalculated));

    assert_eq!(cell.set(42), Ok(()));
    assert!(cell.is_set());
    assert_eq!(cell.try_get(), Ok(&42));
    assert_eq!(*cell.get(), 42);

    // The second write fails and the first value stays.
    assert_eq!(cell.set(7), Err(EngineError::DoubleCalc));
    assert_eq!(cell.try_get(), Ok(&42));
}

#[test]
fn generator_drains_in_order() {
    let mut g = VecGenerator::new(vec![3, 1, 4, 1, 5]);
    assert_eq!(g.next_item(), Some(3));
    assert_eq!(drain(&mut g), vec![1, 4, 1, 5]);

    // A drained generator has nothing left.
    assert_eq!(g.next_item(), None);
    assert_eq!(drain(&mut g), Vec::<i64>::new());
}

#[test]
fn index_set_keeps_order() {
    let mut engine: SimpleEngine<Op> = SimpleEngine::new();
    let a = engine.term(Op::Value(Value { val: TermValue::Int(1) }));
    let b = engine.term(Op::Value(Value { val: TermValue::Int(2) }));

    let s: IndexSet = TermSet::new();
    let s = s.add(a.term()).add(b.term());
    assert_eq!(s.len(), 2);
    assert_eq!(s.get(0), a.term());
    assert_eq!(s.get(1), b.term());
}

#[test]
fn random_strategy_orders_by_index() {
    let mls = MultiplyListScalar {
        l: term_of(0),
        c: term_of(1),
    };
    let list = TermValue::List(vec![0, 1, 2, 3]);
    let scalar = TermValue::Int(5);
    let inputs: Vec<&TermValue> = vec![&list, &scalar];
    assert_eq!(random_list_eval(&mls, &inputs), Ok(vec![0, 5, 10, 15]));
}

#[test]
fn random_strategy_reports_mismatch_and_overflow() {
    let mls = MultiplyListScalar {
        l: term_of(0),
        c: term_of(1),
    };

    let scalar = TermValue::Int(5);
    let not_a_list = TermValue::Int(1);
    let inputs: Vec<&TermValue> = vec![&not_a_list, &scalar];
    assert_eq!(random_list_eval(&mls, &inputs), Err(OpError::KindMismatch));

    let list = TermValue::List(vec![1, i64::MAX]);
    let two = TermValue::Int(2);
    let inputs: Vec<&TermValue> = vec![&list, &two];
    assert_eq!(random_list_eval(&mls, &inputs), Err(OpError::Overflow));
}

#[test]
fn sequential_strategy_runs_in_strict_order() {
    let count = CountList {
        start: term_of(0),
        end: term_of(1),
        inc: term_of(2),
    };
    let s = TermValue::Int(0);
    let e = TermValue::Int(10);
    let c = TermValue::Int(2);
    let inputs: Vec<&TermValue> = vec![&s, &e, &c];
    assert_eq!(sequential_list_eval(&count, &inputs), Ok(vec![0, 2, 4, 6, 8, 10]));
}

#[test]
fn result_handles_carry_position_and_value() {
    let mut engine: SimpleEngine<Op> = SimpleEngine::new();
    let v = engine.term(Op::Value(Value { val: TermValue::Int(11) }));
    let r = engine.eval(&v).unwrap();

    assert_eq!(r.term(), v.term());
    assert_eq!(r.get(), &TermValue::Int(11));
    assert_eq!(r.try_get(), Ok(&TermValue::Int(11)));
    assert_eq!(TermLike::get_implementation(&r), v.term());

    // A scalar result is not a list.
    assert!(list_result(&r).is_none());
}

#[test]
fn list_results_support_length_and_iteration() {
    let mut engine: SimpleEngine<Op> = SimpleEngine::new();
    let l = engine.term(Op::ListValue(term_engine::ops::ListValue { val: vec![2, 4, 6] }));
    let r = engine.eval(&l).unwrap();

    let lr = list_result(&r).unwrap();
    assert_eq!(lr.term(), l.term());
    assert_eq!(lr.len(), 3);
    assert_eq!(lr.try_len(), Ok(3));
    assert_eq!(lr.get(), &vec![2, 4, 6]);
    assert_eq!(lr.try_get(), Ok(&vec![2, 4, 6]));

    let mut sum = 0i64;
    for x in lr.iter() {
        sum += *x;
    }
    assert_eq!(sum, 12);
}

#[test]
fn expressions_declare_their_dependencies() {
    let count = CountList {
        start: term_of(3),
        end: term_of(1),
        inc: term_of(2),
    };
    let terms = SequentialListExpression::terms(&count);
    assert_eq!(terms.len(), 3);
    assert_eq!(terms.get(0), term_of(3));
    assert_eq!(terms.get(1), term_of(1));
    assert_eq!(terms.get(2), term_of(2));

    let v = Value { val: TermValue::Int(1) };
    assert_eq!(Expression::terms(&v).len(), 0);
}

/// A position handle for exercising expressions outside an engine.
fn term_of(i: usize) -> term_engine::simple_engine::TermIndex {
    let mut engine: SimpleEngine<Op> = SimpleEngine::new();
    let mut handle = engine.term(Op::Value(Value { val: TermValue::Int(0) }));
    for _ in 0..i {
        handle = engine.term(Op::Value(Value { val: TermValue::Int(0) }));
    }
    handle.term()
}
