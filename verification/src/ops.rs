use vstd::prelude::*;

use crate::engine::TermSet;
use crate::expression::{view_refs, Expression, TermListResult, TermResult};
use crate::generator::{drain, VecGenerator};
use crate::list::{
    map_list_eval, sequential_from, sequential_list_eval, MapExpression, RandomListExpression,
    SequentialListExpression,
};
use crate::simple_engine::{IndexSet, TermIndex};

verus! {

use crate::error::OpError;

/// A value carried between the example operator nodes: a scalar or a
/// sequence of scalars.
#[derive(Debug, Clone, PartialEq, Eq)]
pub enum TermValue {
    Int(i64),
    List(Vec<i64>),
}

/// The mathematical model of a term value.
#[verifier::ext_equal]
pub enum ValueModel {
    Int(i64),
    List(Seq<i64>),
}

impl View for TermValue {
    type V = ValueModel;

    open spec fn view(&self) -> ValueModel {
        match self {
            TermValue::Int(x) => ValueModel::Int(*x),
            TermValue::List(v) => ValueModel::List(v@),
        }
    }
}

impl TermValue {
    /// A duplicate with the same model.
    pub fn dup(&self) -> (r: TermValue)
        ensures
            r@ == self@,
    {
        match self {
            TermValue::Int(x) => TermValue::Int(*x),
            TermValue::List(v) => {
                let w = v.clone();
                proof {
                    assert(w@ =~= v@);
                }
                TermValue::List(w)
            },
        }
    }
}

/// Whether a mathematical integer fits the machine value type.
pub open spec fn fits_i64(x: int) -> bool {
    i64::MIN <= x <= i64::MAX
}

/// A product of two machine integers, or an overflow failure.
pub open spec fn mul_value(a: i64, b: i64) -> Result<i64, OpError> {
    if fits_i64(a * b) {
        Ok((a * b) as i64)
    } else {
        Err(OpError::Overflow)
    }
}

/// Multiplies two machine integers, failing instead of overflowing.
pub fn mul_i64(a: i64, b: i64) -> (r: Result<i64, OpError>)
    ensures
        r == mul_value(a, b),
{
    proof {
        assert((a as int) * (b as int) <= 0x4000_0000_0000_0000_0000_0000_0000_0000 && (a as int)
            * (b as int) >= -0x4000_0000_0000_0000_0000_0000_0000_0000) by (nonlinear_arith)
            requires
                -0x8000_0000_0000_0000 <= a as int <= 0x7fff_ffff_ffff_ffff,
                -0x8000_0000_0000_0000 <= b as int <= 0x7fff_ffff_ffff_ffff,
        ;
    }
    let wide: i128 = (a as i128) * (b as i128);
    if wide >= i64::MIN as i128 && wide <= i64::MAX as i128 {
        Ok(wide as i64)
    } else {
        Err(OpError::Overflow)
    }
}

/// A node holding a constant scalar (or any constant term value).
#[derive(Debug)]
pub struct Value {
    pub val: TermValue,
}

impl Expression for Value {
    type Value = TermValue;

    type Error = OpError;

    open spec fn spec_terms(&self) -> Seq<int> {
        Seq::empty()
    }

    open spec fn spec_eval(&self, inputs: Seq<ValueModel>) -> Result<ValueModel, OpError> {
        Ok(self.val@)
    }

    fn terms(&self) -> (r: IndexSet) {
        let s: IndexSet = TermSet::new();
        s
    }

    fn eval(&self, inputs: &Vec<&TermValue>) -> (r: Result<TermValue, OpError>) {
        Ok(self.val.dup())
    }

    fn clone_value(value: &TermValue) -> (r: TermValue) {
        value.dup()
    }
}

/// A node holding a constant sequence.
#[derive(Debug)]
pub struct ListValue {
    pub val: Vec<i64>,
}

impl Expression for ListValue {
    type Value = TermValue;

    type Error = OpError;

    open spec fn spec_terms(&self) -> Seq<int> {
        Seq::empty()
    }

    open spec fn spec_eval(&self, inputs: Seq<ValueModel>) -> Result<ValueModel, OpError> {
        Ok(ValueModel::List(self.val@))
    }

    fn terms(&self) -> (r: IndexSet) {
        let s: IndexSet = TermSet::new();
        s
    }

    fn eval(&self, inputs: &Vec<&TermValue>) -> (r: Result<TermValue, OpError>) {
        let w = self.val.clone();
        proof {
            assert(w@ =~= self.val@);
        }
        Ok(TermValue::List(w))
    }

    fn clone_value(value: &TermValue) -> (r: TermValue) {
        value.dup()
    }
}

/// A node scaling its single scalar dependency by a constant factor.
#[derive(Debug)]
pub struct Coefficient {
    pub operand: TermIndex,
    pub factor: i64,
}

impl Expression for Coefficient {
    type Value = TermValue;

    type Error = OpError;

    open spec fn spec_terms(&self) -> Seq<int> {
        seq![self.operand@]
    }

    open spec fn spec_eval(&self, inputs: Seq<ValueModel>) -> Result<ValueModel, OpError> {
        match inputs[0] {
            ValueModel::Int(x) => match mul_value(x, self.factor) {
                Ok(p) => Ok(ValueModel::Int(p)),
                Err(e) => Err(e),
            },
            ValueModel::List(_) => Err(OpError::KindMismatch),
        }
    }

    fn terms(&self) -> (r: IndexSet) {
        let s: IndexSet = TermSet::new();
        let s = s.add(self.operand);
        proof {
            assert(s@ =~= seq![self.operand@]);
        }
        s
    }

    fn eval(&self, inputs: &Vec<&TermValue>) -> (r: Result<TermValue, OpError>) {
        proof {
            assert(view_refs(inputs@)[0] == inputs@[0]@);
        }
        let v0 = inputs[0];
        match v0 {
            TermValue::Int(x) => match mul_i64(*x, self.factor) {
                Ok(p) => Ok(TermValue::Int(p)),
                Err(e) => Err(e),
            },
            TermValue::List(_) => Err(OpError::KindMismatch),
        }
    }

    fn clone_value(value: &TermValue) -> (r: TermValue) {
        value.dup()
    }
}

/// A node multiplying its two scalar dependencies.
#[derive(Debug)]
pub struct Multiply {
    pub a: TermIndex,
    pub b: TermIndex,
}

impl Expression for Multiply {
    type Value = TermValue;

    type Error = OpError;

    open spec fn spec_terms(&self) -> Seq<int> {
        seq![self.a@, self.b@]
    }

    open spec fn spec_eval(&self, inputs: Seq<ValueModel>) -> Result<ValueModel, OpError> {
        match (inputs[0], inputs[1]) {
            (ValueModel::Int(x), ValueModel::Int(y)) => match mul_value(x, y) {
                Ok(p) => Ok(ValueModel::Int(p)),
                Err(e) => Err(e),
            },
            _ => Err(OpError::KindMismatch),
        }
    }

    fn terms(&self) -> (r: IndexSet) {
        let s: IndexSet = TermSet::new();
        let s = s.add(self.a).add(self.b);
        proof {
            assert(s@ =~= seq![self.a@, self.b@]);
        }
        s
    }

    fn eval(&self, inputs: &Vec<&TermValue>) -> (r: Result<TermValue, OpError>) {
        proof {
            assert(view_refs(inputs@)[0] == inputs@[0]@);
            assert(view_refs(inputs@)[1] == inputs@[1]@);
        }
        let v0 = inputs[0];
        let v1 = inputs[1];
        match (v0, v1) {
            (TermValue::Int(x), TermValue::Int(y)) => match mul_i64(*x, *y) {
                Ok(p) => Ok(TermValue::Int(p)),
                Err(e) => Err(e),
            },
            _ => Err(OpError::KindMismatch),
        }
    }

    fn clone_value(value: &TermValue) -> (r: TermValue) {
        value.dup()
    }
}


/// A node multiplying every element of a sequence dependency by a scalar
/// dependency. As a generator/map expression the element/scalar pairs are
/// gathered by draining a producer over the sequence; as a random-access
/// expression each pair is read by index.
#[derive(Debug, Clone, Copy)]
pub struct MultiplyListScalar {
    pub l: TermIndex,
    pub c: TermIndex,
}

impl MapExpression for MultiplyListScalar {
    type Value = TermValue;

    type Element = i64;

    type Setup = (i64, i64);

    type Error = OpError;

    open spec fn spec_terms(&self) -> Seq<int> {
        seq![self.l@, self.c@]
    }

    open spec fn spec_setup(&self, inputs: Seq<ValueModel>) -> Result<Seq<(i64, i64)>, OpError> {
        match (inputs[0], inputs[1]) {
            (ValueModel::List(xs), ValueModel::Int(c)) => Ok(xs.map_values(|x: i64| (x, c))),
            _ => Err(OpError::KindMismatch),
        }
    }

    open spec fn spec_eval_element(&self, setup: (i64, i64)) -> Result<i64, OpError> {
        mul_value(setup.0, setup.1)
    }

    fn terms(&self) -> (r: IndexSet) {
        let s: IndexSet = TermSet::new();
        let s = s.add(self.l).add(self.c);
        proof {
            assert(s@ =~= seq![self.l@, self.c@]);
        }
        s
    }

    #[verifier::loop_isolation(false)]
    fn setup(&self, inputs: &Vec<&TermValue>) -> (r: Result<Vec<(i64, i64)>, OpError>) {
        proof {
            assert(view_refs(inputs@)[0] == inputs@[0]@);
            assert(view_refs(inputs@)[1] == inputs@[1]@);
        }
        let v0 = inputs[0];
        let v1 = inputs[1];
        match (v0, v1) {
            (TermValue::List(xs), TermValue::Int(cv)) => {
                let ghost xs_view = xs@;
                let ghost c = *cv;
                let mut producer = VecGenerator::new(xs.clone());
                let elems = drain(&mut producer);
                proof {
                    assert(elems@ =~= xs_view);
                }
                let mut pairs: Vec<(i64, i64)> = Vec::new();
                let mut k: usize = 0;
                while k < elems.len()
                    invariant
                        k <= elems@.len(),
                        pairs@.len() == k,
                        forall|m: int| 0 <= m < k ==> pairs@[m] == (xs_view[m], c),
                    decreases elems@.len() - k,
                {
                    pairs.push((elems[k], *cv));
                    k = k + 1;
                }
                proof {
                    assert(pairs@ =~= xs_view.map_values(|x: i64| (x, c)));
                }
                Ok(pairs)
            },
            _ => Err(OpError::KindMismatch),
        }
    }

    fn eval_element(&self, setup: &(i64, i64)) -> (r: Result<i64, OpError>) {
        mul_i64(setup.0, setup.1)
    }
}

impl RandomListExpression for MultiplyListScalar {
    type Value = TermValue;

    type Element = i64;

    type Setup = (i64, i64);

    type Error = OpError;

    open spec fn spec_terms(&self) -> Seq<int> {
        seq![self.l@, self.c@]
    }

    open spec fn spec_len(&self, inputs: Seq<ValueModel>) -> nat {
        match inputs[0] {
            ValueModel::List(xs) => xs.len(),
            // A mismatched sequence dependency still gets one setup step,
            // which is what reports the mismatch.
            ValueModel::Int(_) => 1,
        }
    }

    open spec fn spec_setup(&self, inputs: Seq<ValueModel>, index: int) -> Result<
        (i64, i64),
        OpError,
    > {
        match (inputs[0], inputs[1]) {
            (ValueModel::List(xs), ValueModel::Int(c)) => Ok((xs[index], c)),
            _ => Err(OpError::KindMismatch),
        }
    }

    open spec fn spec_eval_element(&self, setup: (i64, i64)) -> Result<i64, OpError> {
        mul_value(setup.0, setup.1)
    }

    fn terms(&self) -> (r: IndexSet) {
        let s: IndexSet = TermSet::new();
        let s = s.add(self.l).add(self.c);
        proof {
            assert(s@ =~= seq![self.l@, self.c@]);
        }
        s
    }

    fn len(&self, inputs: &Vec<&TermValue>) -> (n: usize) {
        proof {
            assert(view_refs(inputs@)[0] == inputs@[0]@);
        }
        match inputs[0] {
            TermValue::List(xs) => xs.len(),
            TermValue::Int(_) => 1,
        }
    }

    fn setup_element(&self, index: usize, inputs: &Vec<&TermValue>) -> (r: Result<
        (i64, i64),
        OpError,
    >) {
        proof {
            assert(view_refs(inputs@)[0] == inputs@[0]@);
            assert(view_refs(inputs@)[1] == inputs@[1]@);
        }
        let v0 = inputs[0];
        let v1 = inputs[1];
        match (v0, v1) {
            (TermValue::List(xs), TermValue::Int(cv)) => Ok((xs[index], *cv)),
            _ => Err(OpError::KindMismatch),
        }
    }

    fn eval_element(&self, setup: &(i64, i64)) -> (r: Result<i64, OpError>) {
        mul_i64(setup.0, setup.1)
    }
}

/// A node producing the counting sequence from a start value to an end
/// bound in fixed increments, each element derived from the previous one.
/// With a positive increment it counts up while the bound allows, with a
/// negative one it counts down, and with a zero increment it stops after
/// the start value.
#[derive(Debug, Clone, Copy)]
pub struct CountList {
    pub start: TermIndex,
    pub end: TermIndex,
    pub inc: TermIndex,
}

/// Whether the three dependencies of a counting sequence are scalars.
pub open spec fn count_kinds_ok(inputs: Seq<ValueModel>) -> bool {
    &&& inputs.len() == 3
    &&& inputs[0] is Int
    &&& inputs[1] is Int
    &&& inputs[2] is Int
}

/// How many more elements a counting sequence can produce once its last
/// element is `x`.
pub open spec fn count_dist(x: int, e: int, c: int) -> nat {
    if c > 0 {
        if x <= e {
            (e - x + 1) as nat
        } else {
            0
        }
    } else if c < 0 {
        if x >= e {
            (x - e + 1) as nat
        } else {
            0
        }
    } else {
        0
    }
}

impl SequentialListExpression for CountList {
    type Value = TermValue;

    type Element = i64;

    type Error = OpError;

    open spec fn spec_terms(&self) -> Seq<int> {
        seq![self.start@, self.end@, self.inc@]
    }

    open spec fn spec_next(&self, inputs: Seq<ValueModel>, prev: Seq<i64>) -> Result<
        Option<i64>,
        OpError,
    > {
        if !count_kinds_ok(inputs) {
            Err(OpError::KindMismatch)
        } else {
            let s = inputs[0]->Int_0;
            let e = inputs[1]->Int_0;
            let c = inputs[2]->Int_0;
            if prev.len() == 0 {
                Ok(Some(s))
            } else {
                let l = prev.last();
                if c > 0 {
                    if l + c <= e {
                        Ok(Some((l + c) as i64))
                    } else {
                        Ok(None)
                    }
                } else if c < 0 {
                    if l + c >= e {
                        Ok(Some((l + c) as i64))
                    } else {
                        Ok(None)
                    }
                } else {
                    Ok(None)
                }
            }
        }
    }

    open spec fn spec_measure(&self, inputs: Seq<ValueModel>, prev: Seq<i64>) -> nat {
        if !count_kinds_ok(inputs) {
            0
        } else {
            let e = inputs[1]->Int_0;
            let c = inputs[2]->Int_0;
            if prev.len() == 0 {
                count_dist(inputs[0]->Int_0 as int, e as int, c as int) + 1
            } else {
                count_dist(prev.last() as int, e as int, c as int)
            }
        }
    }

    proof fn measure_decreases(&self, inputs: Seq<ValueModel>, prev: Seq<i64>) {
        if count_kinds_ok(inputs) && self.spec_next(inputs, prev) is Ok {
            match self.spec_next(inputs, prev)->Ok_0 {
                Some(el) => {
                    assert(prev.push(el).last() == el);
                },
                None => {},
            }
        }
    }

    fn terms(&self) -> (r: IndexSet) {
        let s: IndexSet = TermSet::new();
        let s = s.add(self.start).add(self.end).add(self.inc);
        proof {
            assert(s@ =~= seq![self.start@, self.end@, self.inc@]);
        }
        s
    }

    fn eval_next(&self, inputs: &Vec<&TermValue>, prev: &Vec<i64>) -> (r: Result<
        Option<i64>,
        OpError,
    >) {
        proof {
            assert(view_refs(inputs@).len() == 3);
            assert(view_refs(inputs@)[0] == inputs@[0]@);
            assert(view_refs(inputs@)[1] == inputs@[1]@);
            assert(view_refs(inputs@)[2] == inputs@[2]@);
        }
        let v0 = inputs[0];
        let v1 = inputs[1];
        let v2 = inputs[2];
        match (v0, v1, v2) {
            (TermValue::Int(s), TermValue::Int(e), TermValue::Int(c)) => {
                if prev.len() == 0 {
                    Ok(Some(*s))
                } else {
                    let l = prev[prev.len() - 1];
                    if *c > 0 {
                        if (l as i128) + (*c as i128) <= (*e as i128) {
                            Ok(Some(l + *c))
                        } else {
                            Ok(None)
                        }
                    } else if *c < 0 {
                        if (l as i128) + (*c as i128) >= (*e as i128) {
                            Ok(Some(l + *c))
                        } else {
                            Ok(None)
                        }
                    } else {
                        Ok(None)
                    }
                }
            },
            _ => Err(OpError::KindMismatch),
        }
    }
}

/// The model of a list-scalar multiplication: the element/scalar pairs,
/// each multiplied, with an overflow anywhere failing the whole node.
pub open spec fn mls_model(m: MultiplyListScalar, inputs: Seq<ValueModel>) -> Result<
    ValueModel,
    OpError,
> {
    match <MultiplyListScalar as MapExpression>::spec_setup(&m, inputs) {
        Err(e) => Err(e),
        Ok(ss) => if exists|k: int|
            0 <= k < ss.len() && (#[trigger] mul_value(ss[k].0, ss[k].1)) is Err {
            Err(OpError::Overflow)
        } else {
            Ok(ValueModel::List(ss.map_values(|s: (i64, i64)| mul_value(s.0, s.1)->Ok_0)))
        },
    }
}

/// The model of a counting-sequence node: the full unfolding of its step.
pub open spec fn count_model(c: CountList, inputs: Seq<ValueModel>) -> Result<
    ValueModel,
    OpError,
> {
    match sequential_from(c, inputs, Seq::empty()) {
        Ok(s) => Ok(ValueModel::List(s)),
        Err(e) => Err(e),
    }
}

/// A computation node of any of the example operators: the one tag under
/// which they share an engine's node table.
#[derive(Debug)]
pub enum Op {
    Value(Value),
    ListValue(ListValue),
    Coefficient(Coefficient),
    Multiply(Multiply),
    MultiplyListScalar(MultiplyListScalar),
    CountList(CountList),
}

impl Expression for Op {
    type Value = TermValue;

    type Error = OpError;

    open spec fn spec_terms(&self) -> Seq<int> {
        match self {
            Op::Value(x) => x.spec_terms(),
            Op::ListValue(x) => x.spec_terms(),
            Op::Coefficient(x) => x.spec_terms(),
            Op::Multiply(x) => x.spec_terms(),
            Op::MultiplyListScalar(x) => <MultiplyListScalar as MapExpression>::spec_terms(x),
            Op::CountList(x) => <CountList as SequentialListExpression>::spec_terms(x),
        }
    }

    open spec fn spec_eval(&self, inputs: Seq<ValueModel>) -> Result<ValueModel, OpError> {
        match self {
            Op::Value(x) => x.spec_eval(inputs),
            Op::ListValue(x) => x.spec_eval(inputs),
            Op::Coefficient(x) => x.spec_eval(inputs),
            Op::Multiply(x) => x.spec_eval(inputs),
            Op::MultiplyListScalar(x) => mls_model(*x, inputs),
            Op::CountList(x) => count_model(*x, inputs),
        }
    }

    fn terms(&self) -> (r: IndexSet) {
        match self {
            Op::Value(x) => x.terms(),
            Op::ListValue(x) => x.terms(),
            Op::Coefficient(x) => x.terms(),
            Op::Multiply(x) => x.terms(),
            Op::MultiplyListScalar(x) => MapExpression::terms(x),
            Op::CountList(x) => SequentialListExpression::terms(x),
        }
    }

    fn eval(&self, inputs: &Vec<&TermValue>) -> (r: Result<TermValue, OpError>) {
        match self {
            Op::Value(x) => x.eval(inputs),
            Op::ListValue(x) => x.eval(inputs),
            Op::Coefficient(x) => x.eval(inputs),
            Op::Multiply(x) => x.eval(inputs),
            Op::MultiplyListScalar(x) => {
                let ghost models = view_refs(inputs@);
                let res = map_list_eval(x, inputs);
                match res {
                    Ok(v) => {
                        proof {
                            let ss = <MultiplyListScalar as MapExpression>::spec_setup(
                                x,
                                models,
                            )->Ok_0;
                            assert forall|k: int| 0 <= k < ss.len() implies !((#[trigger] mul_value(
                                ss[k].0,
                                ss[k].1,
                            )) is Err) by {
                                assert(<MultiplyListScalar as MapExpression>::spec_eval_element(
                                    x,
                                    ss[k],
                                ) == Ok::<i64, OpError>(v@[k]));
                            }
                            assert(v@ =~= ss.map_values(
                                |s: (i64, i64)| mul_value(s.0, s.1)->Ok_0,
                            ));
                        }
                        Ok(TermValue::List(v))
                    },
                    Err(e) => {
                        proof {
                            if <MultiplyListScalar as MapExpression>::spec_setup(
                                x,
                                models,
                            ) is Ok {
                                let ss = <MultiplyListScalar as MapExpression>::spec_setup(
                                    x,
                                    models,
                                )->Ok_0;
                                let k = choose|k: int|
                                    0 <= k < ss.len() && mul_value(ss[k].0, ss[k].1) == Err::<
                                        i64,
                                        OpError,
                                    >(e);
                                assert(mul_value(ss[k].0, ss[k].1) is Err);
                                assert(e == OpError::Overflow);
                            }
                        }
                        Err(e)
                    },
                }
            },
            Op::CountList(x) => {
                let res = sequential_list_eval(x, inputs);
                match res {
                    Ok(v) => Ok(TermValue::List(v)),
                    Err(e) => Err(e),
                }
            },
        }
    }

    fn clone_value(value: &TermValue) -> (r: TermValue) {
        value.dup()
    }
}

/// Reads a sequence-valued term result into a list-result handle; a
/// scalar result gives nothing.
pub fn list_result(r: &TermResult<TermValue>) -> (out: Option<TermListResult<i64>>)
    ensures
        match r.spec_value()@ {
            ValueModel::List(s) => out matches Some(lr) && lr.spec_items() == s && lr.spec_term()
                == r.spec_term(),
            ValueModel::Int(_) => out is None,
        },
{
    match r.get() {
        TermValue::List(v) => {
            let w = v.clone();
            proof {
                assert(w@ =~= v@);
            }
            Some(TermListResult::make(r.term(), w))
        },
        TermValue::Int(_) => None,
    }
}

} // verus!

