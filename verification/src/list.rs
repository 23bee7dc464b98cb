use vstd::prelude::*;

use rayon::iter::{IntoParallelIterator, ParallelIterator};

use crate::expression::view_refs;
use crate::simple_engine::IndexSet;

verus! {

/// Relies on rayon's `ParallelIterator::map` and `collect` into
/// `Result<Vec<_>, _>`: `f` is applied to every element on the
/// work-stealing pool; on success the collected vector keeps the input
/// order, and on failure the error of one failing element is returned
/// (which one is not deterministic).
#[verifier::external_body]
fn par_map<S, T, E, F>(f: F, items: Vec<S>) -> (r: Result<Vec<T>, E>) where
    S: Send,
    T: Send,
    E: Send,
    F: Fn(&S) -> Result<T, E> + Send + Sync,

    requires
        forall|m: int| 0 <= m < items@.len() ==> call_requires(f, (&items@[m],)),
    ensures
        r matches Ok(v) ==> v@.len() == items@.len() && (forall|m: int|
            0 <= m < items@.len() ==> call_ensures(f, (&items@[m],), Ok(#[trigger] v@[m]))),
        r matches Err(e) ==> exists|m: int|
            0 <= m < items@.len() && call_ensures(f, (&items@[m],), Err(e)),
{
    items.into_par_iter().map(|s| f(&s)).collect()
}

/// The random-access strategy: a node whose sequence value has a known
/// length and index-addressable elements. The setup step for an index may
/// read shared state and runs strictly in index order; the eval step is a
/// pure function of the setup value and runs in a parallel fan-out.
pub trait RandomListExpression: Sized {
    type Value: View;

    type Element;

    type Setup;

    type Error;

    /// The positions of the direct dependencies, in evaluation order.
    spec fn spec_terms(&self) -> Seq<int>;

    /// How many elements the sequence has, given the dependency models.
    spec fn spec_len(&self, inputs: Seq<<Self::Value as View>::V>) -> nat;

    /// The setup value extracted for one index.
    spec fn spec_setup(&self, inputs: Seq<<Self::Value as View>::V>, index: int) -> Result<
        Self::Setup,
        Self::Error,
    >;

    /// The element computed from one setup value.
    spec fn spec_eval_element(&self, setup: Self::Setup) -> Result<Self::Element, Self::Error>;

    fn terms(&self) -> (r: IndexSet)
        ensures
            r@ == self.spec_terms(),
    ;

    fn len(&self, inputs: &Vec<&Self::Value>) -> (n: usize)
        requires
            inputs@.len() == self.spec_terms().len(),
        ensures
            n == self.spec_len(crate::expression::view_refs(inputs@)),
    ;

    fn setup_element(&self, index: usize, inputs: &Vec<&Self::Value>) -> (r: Result<
        Self::Setup,
        Self::Error,
    >)
        requires
            inputs@.len() == self.spec_terms().len(),
            (index as nat) < self.spec_len(crate::expression::view_refs(inputs@)),
        ensures
            r == self.spec_setup(crate::expression::view_refs(inputs@), index as int),
    ;

    fn eval_element(&self, setup: &Self::Setup) -> (r: Result<Self::Element, Self::Error>)
        ensures
            r == self.spec_eval_element(*setup),
    ;
}

/// Evaluates a random-access list expression: the setup steps run
/// sequentially in index order, then one parallel fan-out evaluates all
/// elements. Position `m` of the result is always the eval step applied
/// to the setup step of index `m`, however the fan-out interleaves; any
/// failing step fails the whole node.
#[verifier::loop_isolation(false)]
pub fn random_list_eval<R>(expr: &R, inputs: &Vec<&R::Value>) -> (r: Result<
    Vec<R::Element>,
    R::Error,
>) where
    R: RandomListExpression + Sync,
    R::Setup: Send + Sync,
    R::Element: Send,
    R::Error: Send,

    requires
        inputs@.len() == expr.spec_terms().len(),
    ensures
        r matches Ok(v) ==> v@.len() == expr.spec_len(crate::expression::view_refs(inputs@)) && (
        forall|m: int|
            0 <= m < v@.len() ==> ((#[trigger] expr.spec_setup(
                crate::expression::view_refs(inputs@),
                m,
            )) matches Ok(s) && expr.spec_eval_element(s) == Ok::<R::Element, R::Error>(v@[m]))),
        r matches Err(e) ==> exists|m: int|
            0 <= m < expr.spec_len(crate::expression::view_refs(inputs@)) && ((
            #[trigger] expr.spec_setup(crate::expression::view_refs(inputs@), m)) == Err::<
                R::Setup,
                R::Error,
            >(e) || (expr.spec_setup(crate::expression::view_refs(inputs@), m) matches Ok(s)
                && expr.spec_eval_element(s) == Err::<R::Element, R::Error>(e))),
        (forall|m: int|
            0 <= m < expr.spec_len(crate::expression::view_refs(inputs@)) ==> ((
            #[trigger] expr.spec_setup(crate::expression::view_refs(inputs@), m)) matches Ok(s)
                && expr.spec_eval_element(s) is Ok)) ==> r is Ok,
{
    let ghost models = crate::expression::view_refs(inputs@);
    let n = expr.len(inputs);
    let mut setups: Vec<R::Setup> = Vec::new();
    let mut k: usize = 0;
    while k < n
        invariant
            k <= n,
            setups@.len() == k,
            forall|m: int|
                0 <= m < k ==> ((#[trigger] expr.spec_setup(models, m)) matches Ok(s) && s
                    == setups@[m]),
        decreases n - k,
    {
        match expr.setup_element(k, inputs) {
            Ok(s) => {
                setups.push(s);
            },
            Err(e) => {
                proof {
                    assert((k as nat) < expr.spec_len(models));
                    assert(expr.spec_setup(models, k as int) == Err::<R::Setup, R::Error>(e));
                }
                return Err(e);
            },
        }
        k = k + 1;
    }
    let f = |s: &R::Setup| -> (out: Result<R::Element, R::Error>)
        ensures
            out == expr.spec_eval_element(*s),
        { expr.eval_element(s) };
    let ghost setups_view = setups@;
    let r = par_map(f, setups);
    match r {
        Ok(v) => Ok(v),
        Err(e) => {
            proof {
                let m = choose|m: int|
                    0 <= m < setups_view.len() && call_ensures(
                        f,
                        (&setups_view[m],),
                        Err::<R::Element, R::Error>(e),
                    );
                assert(expr.spec_setup(models, m) matches Ok(s) && s == setups_view[m]);
                assert(expr.spec_eval_element(setups_view[m]) == Err::<R::Element, R::Error>(e));
            }
            Err(e)
        },
    }
}

/// The generator/map strategy: the setup values come from draining a lazy
/// producer instead of from indexed access; once they are all gathered,
/// the eval step runs over them in the same parallel fan-out as the
/// random-access strategy.
pub trait MapExpression: Sized {
    type Value: View;

    type Element;

    type Setup;

    type Error;

    /// The positions of the direct dependencies, in evaluation order.
    spec fn spec_terms(&self) -> Seq<int>;

    /// The setup values gathered for the dependency models.
    spec fn spec_setup(&self, inputs: Seq<<Self::Value as View>::V>) -> Result<
        Seq<Self::Setup>,
        Self::Error,
    >;

    /// The element computed from one setup value.
    spec fn spec_eval_element(&self, setup: Self::Setup) -> Result<Self::Element, Self::Error>;

    fn terms(&self) -> (r: IndexSet)
        ensures
            r@ == self.spec_terms(),
    ;

    fn setup(&self, inputs: &Vec<&Self::Value>) -> (r: Result<Vec<Self::Setup>, Self::Error>)
        requires
            inputs@.len() == self.spec_terms().len(),
        ensures
            r matches Ok(v) ==> self.spec_setup(crate::expression::view_refs(inputs@)) == Ok::<
                Seq<Self::Setup>,
                Self::Error,
            >(v@),
            r matches Err(e) ==> self.spec_setup(crate::expression::view_refs(inputs@)) == Err::<
                Seq<Self::Setup>,
                Self::Error,
            >(e),
    ;

    fn eval_element(&self, setup: &Self::Setup) -> (r: Result<Self::Element, Self::Error>)
        ensures
            r == self.spec_eval_element(*setup),
    ;
}

/// Evaluates a generator/map list expression: the setup values are
/// gathered sequentially, then every element is computed in one parallel
/// fan-out. Position `m` of the result is always the eval step applied to
/// setup value `m`, however the fan-out interleaves; any failure fails
/// the whole node.
pub fn map_list_eval<M>(expr: &M, inputs: &Vec<&M::Value>) -> (r: Result<
    Vec<M::Element>,
    M::Error,
>) where
    M: MapExpression + Sync,
    M::Setup: Send + Sync,
    M::Element: Send,
    M::Error: Send,

    requires
        inputs@.len() == expr.spec_terms().len(),
    ensures
        r matches Ok(v) ==> expr.spec_setup(crate::expression::view_refs(inputs@)) matches Ok(ss)
            && v@.len() == ss.len() && (forall|m: int|
            0 <= m < ss.len() ==> expr.spec_eval_element(#[trigger] ss[m]) == Ok::<
                M::Element,
                M::Error,
            >(v@[m])),
        r matches Err(e) ==> expr.spec_setup(crate::expression::view_refs(inputs@)) == Err::<
            Seq<M::Setup>,
            M::Error,
        >(e) || (expr.spec_setup(crate::expression::view_refs(inputs@)) matches Ok(ss) && exists|
            m: int,
        |
            0 <= m < ss.len() && expr.spec_eval_element(#[trigger] ss[m]) == Err::<
                M::Element,
                M::Error,
            >(e)),
        (expr.spec_setup(crate::expression::view_refs(inputs@)) matches Ok(ss) && (forall|m: int|
            0 <= m < ss.len() ==> expr.spec_eval_element(#[trigger] ss[m]) is Ok)) ==> r is Ok,
{
    match expr.setup(inputs) {
        Err(e) => Err(e),
        Ok(setups) => {
            let f = |s: &M::Setup| -> (out: Result<M::Element, M::Error>)
                ensures
                    out == expr.spec_eval_element(*s),
                { expr.eval_element(s) };
            let ghost setups_view = setups@;
            let r = par_map(f, setups);
            proof {
                if r is Err {
                    let e = r->Err_0;
                    let m = choose|m: int|
                        0 <= m < setups_view.len() && call_ensures(
                            f,
                            (&setups_view[m],),
                            Err::<M::Element, M::Error>(e),
                        );
                    assert(expr.spec_eval_element(setups_view[m]) == Err::<
                        M::Element,
                        M::Error,
                    >(e));
                }
            }
            r
        },
    }
}

/// The strictly sequential strategy: elements are produced one at a time,
/// each step seeing the full prefix already produced -- so later elements
/// may depend on all earlier ones -- until a step reports completion.
pub trait SequentialListExpression: Sized {
    type Value: View;

    type Element;

    type Error;

    /// The positions of the direct dependencies, in evaluation order.
    spec fn spec_terms(&self) -> Seq<int>;

    /// The step: given the dependency models and the prefix produced so
    /// far, the next element, completion, or a failure.
    spec fn spec_next(
        &self,
        inputs: Seq<<Self::Value as View>::V>,
        prev: Seq<Self::Element>,
    ) -> Result<Option<Self::Element>, Self::Error>;

    /// An upper bound on how many elements can still follow `prev`.
    spec fn spec_measure(
        &self,
        inputs: Seq<<Self::Value as View>::V>,
        prev: Seq<Self::Element>,
    ) -> nat;

    /// Every produced element brings the sequence strictly closer to
    /// completion: this is what makes the strategy terminate.
    proof fn measure_decreases(
        &self,
        inputs: Seq<<Self::Value as View>::V>,
        prev: Seq<Self::Element>,
    )
        ensures
            self.spec_next(inputs, prev) matches Ok(Some(e)) ==> self.spec_measure(
                inputs,
                prev.push(e),
            ) < self.spec_measure(inputs, prev),
    ;

    fn terms(&self) -> (r: IndexSet)
        ensures
            r@ == self.spec_terms(),
    ;

    fn eval_next(&self, inputs: &Vec<&Self::Value>, prev: &Vec<Self::Element>) -> (r: Result<
        Option<Self::Element>,
        Self::Error,
    >)
        requires
            inputs@.len() == self.spec_terms().len(),
        ensures
            r == self.spec_next(view_refs(inputs@), prev@),
    ;
}

/// The full unfolding of a sequential list expression from a given prefix:
/// elements are appended in strict order until the step reports
/// completion, and a failing step fails the whole list.
pub open spec fn sequential_from<S: SequentialListExpression>(
    expr: S,
    inputs: Seq<<S::Value as View>::V>,
    prev: Seq<S::Element>,
) -> Result<Seq<S::Element>, S::Error>
    decreases expr.spec_measure(inputs, prev)
        via sequential_from_decreases::<S>
{
    match expr.spec_next(inputs, prev) {
        Err(e) => Err(e),
        Ok(None) => Ok(prev),
        Ok(Some(e)) => sequential_from(expr, inputs, prev.push(e)),
    }
}

#[via_fn]
proof fn sequential_from_decreases<S: SequentialListExpression>(
    expr: S,
    inputs: Seq<<S::Value as View>::V>,
    prev: Seq<S::Element>,
) {
    expr.measure_decreases(inputs, prev);
}

/// Evaluates a strictly sequential list expression on a single thread, in
/// strict order, passing each step the full prefix of already-produced
/// elements; it stops exactly when a step reports completion.
#[verifier::loop_isolation(false)]
pub fn sequential_list_eval<S: SequentialListExpression>(expr: &S, inputs: &Vec<&S::Value>) -> (r:
    Result<Vec<S::Element>, S::Error>)
    requires
        inputs@.len() == expr.spec_terms().len(),
    ensures
        r matches Ok(v) ==> Ok::<Seq<S::Element>, S::Error>(v@) == sequential_from(
            *expr,
            view_refs(inputs@),
            Seq::empty(),
        ),
        r matches Err(e) ==> Err::<Seq<S::Element>, S::Error>(e) == sequential_from(
            *expr,
            view_refs(inputs@),
            Seq::empty(),
        ),
{
    let ghost models = view_refs(inputs@);
    let mut out: Vec<S::Element> = Vec::new();
    let mut done: bool = false;
    while !done
        invariant
            sequential_from(*expr, models, out@) == sequential_from(*expr, models, Seq::empty()),
            done ==> expr.spec_next(models, out@) == Ok::<Option<S::Element>, S::Error>(None),
        decreases expr.spec_measure(models, out@) + (if done {
            0int
        } else {
            1int
        }),
    {
        match expr.eval_next(inputs, &out) {
            Ok(Some(e)) => {
                proof {
                    expr.measure_decreases(models, out@);
                }
                out.push(e);
            },
            Ok(None) => {
                done = true;
            },
            Err(e) => {
                return Err(e);
            },
        }
    }
    Ok(out)
}

} // verus!

