use vstd::prelude::*;

use crate::cell::CacheCell;
use crate::engine::{Term, TermSet};
use crate::error::{ExpressionError, ExpressionResult};
use crate::expression::{view_refs, Expression, TermResult};

verus! {

/// An opaque position in an engine's node table. Handed out at
/// registration; meaningful only to the engine that issued it.
#[derive(Debug, Clone, Copy, PartialEq, Eq, Structural)]
pub struct TermIndex(pub(crate) usize);

impl View for TermIndex {
    type V = int;

    closed spec fn view(&self) -> int {
        self.0 as int
    }
}

impl TermIndex {
    pub(crate) fn position(&self) -> (i: usize)
        ensures
            i as int == self@,
    {
        self.0
    }
}

/// An ordered collection of term positions: a node's declared dependency
/// set, immutable once the node is registered.
pub struct IndexSet(Vec<TermIndex>);

impl View for IndexSet {
    type V = Seq<int>;

    closed spec fn view(&self) -> Seq<int> {
        self.0@.map_values(|t: TermIndex| t@)
    }
}

impl TermSet for IndexSet {
    open spec fn positions(&self) -> Seq<int> {
        self@
    }

    fn new() -> (s: Self) {
        let s = IndexSet(Vec::new());
        proof {
            assert(s.positions() =~= Seq::<int>::empty());
        }
        s
    }

    fn add(self, term: TermIndex) -> (s: Self) {
        let ghost olds = self.positions();
        let IndexSet(mut v) = self;
        v.push(term);
        let s = IndexSet(v);
        proof {
            assert(s.positions() =~= olds.push(term@));
        }
        s
    }
}

impl IndexSet {
    pub fn len(&self) -> (n: usize)
        ensures
            n == self@.len(),
    {
        self.0.len()
    }

    pub fn get(&self, i: usize) -> (t: TermIndex)
        requires
            i < self@.len(),
        ensures
            t@ == self@[i as int],
    {
        self.0[i]
    }
}

/// One registered node: its computation, its declared dependency set, and
/// its result cache.
struct Node<Expr: Expression> {
    expr: Expr,
    upstream: IndexSet,
    cell: CacheCell<Expr::Value>,
}

/// Well-formedness of a node table: every node's dependencies point
/// strictly earlier in the table. Registration enforces this, because a
/// dependency's handle exists only once the dependency is registered; it is
/// also what makes the recursive evaluator terminate.
pub open spec fn wf_exprs<Expr: Expression>(exprs: Seq<Expr>) -> bool {
    forall|i: int, l: int|
        0 <= i < exprs.len() && 0 <= l < exprs[i].spec_terms().len()
            ==> 0 <= #[trigger] exprs[i].spec_terms()[l] < i
}

/// The mathematical model of an expression type's values.
pub type ModelOf<Expr> = <<Expr as Expression>::Value as View>::V;

/// The denotation of node `i`: the model of the value the graph assigns to
/// it. Its dependencies are evaluated in declaration order; the first
/// failure aborts, otherwise the node's own computation runs on their
/// values.
pub open spec fn denote<Expr: Expression>(exprs: Seq<Expr>, i: int) -> Result<
    ModelOf<Expr>,
    Expr::Error,
>
    decreases i, 1int, 0int
        when wf_exprs(exprs) && 0 <= i < exprs.len()
{
    match denote_inputs(exprs, i, 0) {
        Ok(inputs) => exprs[i].spec_eval(inputs),
        Err(e) => Err(e),
    }
}

/// The models of node `i`'s dependencies from position `j` on: the first
/// dependency whose denotation fails decides the result.
pub open spec fn denote_inputs<Expr: Expression>(exprs: Seq<Expr>, i: int, j: int) -> Result<
    Seq<ModelOf<Expr>>,
    Expr::Error,
>
    decreases i, 0int, exprs[i].spec_terms().len() - j
        when wf_exprs(exprs) && 0 <= i < exprs.len() && 0 <= j <= exprs[i].spec_terms().len()
{
    let deps = exprs[i].spec_terms();
    if j == deps.len() {
        Ok(Seq::empty())
    } else {
        match denote(exprs, deps[j]) {
            Ok(v) => match denote_inputs(exprs, i, j + 1) {
                Ok(rest) => Ok(seq![v] + rest),
                Err(e) => Err(e),
            },
            Err(e) => Err(e),
        }
    }
}

/// A node's denotation reads only the table entries before it, so
/// registering further nodes never changes the values of existing ones.
pub proof fn lemma_denote_prefix<Expr: Expression>(exprs1: Seq<Expr>, exprs2: Seq<Expr>, i: int)
    requires
        wf_exprs(exprs1),
        wf_exprs(exprs2),
        exprs1.len() <= exprs2.len(),
        forall|k: int| 0 <= k < exprs1.len() ==> exprs1[k] == exprs2[k],
        0 <= i < exprs1.len(),
    ensures
        denote(exprs2, i) == denote(exprs1, i),
    decreases i, 1int, 0int,
{
    lemma_denote_inputs_prefix(exprs1, exprs2, i, 0);
}

proof fn lemma_denote_inputs_prefix<Expr: Expression>(
    exprs1: Seq<Expr>,
    exprs2: Seq<Expr>,
    i: int,
    j: int,
)
    requires
        wf_exprs(exprs1),
        wf_exprs(exprs2),
        exprs1.len() <= exprs2.len(),
        forall|k: int| 0 <= k < exprs1.len() ==> exprs1[k] == exprs2[k],
        0 <= i < exprs1.len(),
        0 <= j <= exprs1[i].spec_terms().len(),
    ensures
        denote_inputs(exprs2, i, j) == denote_inputs(exprs1, i, j),
    decreases i, 0int, exprs1[i].spec_terms().len() - j,
{
    let deps = exprs1[i].spec_terms();
    if j < deps.len() {
        lemma_denote_prefix(exprs1, exprs2, deps[j]);
        lemma_denote_inputs_prefix(exprs1, exprs2, i, j + 1);
    }
}

/// When every dependency from position `j` on succeeds, the dependency
/// values are exactly their denotations, in order.
proof fn lemma_inputs_all_ok<Expr: Expression>(exprs: Seq<Expr>, i: int, j: int)
    requires
        wf_exprs(exprs),
        0 <= i < exprs.len(),
        0 <= j <= exprs[i].spec_terms().len(),
        forall|m: int|
            j <= m < exprs[i].spec_terms().len() ==> denote(
                exprs,
                #[trigger] exprs[i].spec_terms()[m],
            ) is Ok,
    ensures
        denote_inputs(exprs, i, j) is Ok,
        denote_inputs(exprs, i, j)->Ok_0.len() == exprs[i].spec_terms().len() - j,
        forall|m: int|
            j <= m < exprs[i].spec_terms().len() ==> denote_inputs(exprs, i, j)->Ok_0[m - j]
                == denote(exprs, #[trigger] exprs[i].spec_terms()[m])->Ok_0,
    decreases exprs[i].spec_terms().len() - j,
{
    let deps = exprs[i].spec_terms();
    if j < deps.len() {
        lemma_inputs_all_ok(exprs, i, j + 1);
    }
}

/// When the dependencies before position `k` succeed and the one at `k`
/// fails, the dependency list fails with exactly that error.
proof fn lemma_inputs_first_error<Expr: Expression>(exprs: Seq<Expr>, i: int, j: int, k: int)
    requires
        wf_exprs(exprs),
        0 <= i < exprs.len(),
        0 <= j <= k < exprs[i].spec_terms().len(),
        forall|m: int|
            j <= m < k ==> denote(exprs, #[trigger] exprs[i].spec_terms()[m]) is Ok,
        denote(exprs, exprs[i].spec_terms()[k]) is Err,
    ensures
        denote_inputs(exprs, i, j) == Err::<Seq<ModelOf<Expr>>, Expr::Error>(
            denote(exprs, exprs[i].spec_terms()[k])->Err_0,
        ),
    decreases k - j,
{
    if j < k {
        lemma_inputs_first_error(exprs, i, j + 1, k);
    }
}

/// A dependency whose denotation fails makes every node that declares it
/// fail as well: failures propagate to all dependents.
pub proof fn lemma_error_propagates<Expr: Expression>(exprs: Seq<Expr>, i: int, l: int)
    requires
        wf_exprs(exprs),
        0 <= i < exprs.len(),
        0 <= l < exprs[i].spec_terms().len(),
        denote(exprs, exprs[i].spec_terms()[l]) is Err,
    ensures
        denote(exprs, i) is Err,
{
    lemma_inputs_err_from(exprs, i, 0, l);
}

proof fn lemma_inputs_err_from<Expr: Expression>(exprs: Seq<Expr>, i: int, j: int, l: int)
    requires
        wf_exprs(exprs),
        0 <= i < exprs.len(),
        0 <= j <= l < exprs[i].spec_terms().len(),
        denote(exprs, exprs[i].spec_terms()[l]) is Err,
    ensures
        denote_inputs(exprs, i, j) is Err,
    decreases l - j,
{
    let deps = exprs[i].spec_terms();
    if denote(exprs, deps[j]) is Err {
    } else {
        lemma_inputs_err_from(exprs, i, j + 1, l);
    }
}

/// Failures propagate along whole dependency chains: when each node of
/// the chain declares the one before it as a dependency and the first
/// node's denotation fails, so does the last one's.
pub proof fn lemma_error_propagates_chain<Expr: Expression>(exprs: Seq<Expr>, chain: Seq<int>)
    requires
        wf_exprs(exprs),
        chain.len() > 0,
        forall|k: int| 0 <= k < chain.len() ==> 0 <= #[trigger] chain[k] < exprs.len(),
        forall|k: int|
            1 <= k < chain.len() ==> exprs[#[trigger] chain[k]].spec_terms().contains(
                chain[k - 1],
            ),
        denote(exprs, chain[0]) is Err,
    ensures
        denote(exprs, chain.last()) is Err,
    decreases chain.len(),
{
    if chain.len() > 1 {
        let prefix = chain.drop_last();
        lemma_error_propagates_chain(exprs, prefix);
        let i = chain.last();
        let deps = exprs[i].spec_terms();
        let l = choose|l: int| 0 <= l < deps.len() && deps[l] == prefix.last();
        lemma_error_propagates(exprs, i, l);
    }
}

/// The engine: owns the node table, registers computations, and drives the
/// dependency-first, at-most-once evaluation.
pub struct SimpleEngine<Expr: Expression> {
    terms: Vec<Node<Expr>>,
    /// How many times each node's computation has actually run; the
    /// memoization law ties it to the cache state.
    runs: Ghost<Seq<nat>>,
}

impl<Expr: Expression> SimpleEngine<Expr> {
    /// The registered computations, in registration order.
    pub closed spec fn exprs(&self) -> Seq<Expr> {
        self.terms@.map_values(|n: Node<Expr>| n.expr)
    }

    /// Each node's cache state: `None` until evaluated, then the value.
    pub closed spec fn cached(&self) -> Seq<Option<ModelOf<Expr>>> {
        self.terms@.map_values(
            |n: Node<Expr>|
                match n.cell.contents() {
                    Some(v) => Some(v@),
                    None => None,
                },
        )
    }

    /// How many times each node's computation has run.
    pub closed spec fn runs(&self) -> Seq<nat> {
        self.runs@
    }

    /// The engine's invariant: dependencies point strictly earlier in the
    /// table, a node's stored dependency set is the one its computation
    /// declared, and a cache is only ever filled with the node's
    /// denotation, by a computation that ran exactly once.
    pub closed spec fn wf(&self) -> bool {
        &&& self.runs@.len() == self.terms@.len()
        &&& (forall|i: int|
            0 <= i < self.terms@.len() ==> (#[trigger] self.terms@[i]).upstream@
                == self.terms@[i].expr.spec_terms())
        &&& wf_exprs(self.exprs())
        &&& (forall|i: int|
            0 <= i < self.terms@.len() ==> match (#[trigger] self.terms@[i]).cell.contents() {
                Some(v) => denote(self.exprs(), i) == Ok::<ModelOf<Expr>, Expr::Error>(v@)
                    && self.runs@[i] == 1,
                None => denote(self.exprs(), i) is Ok ==> self.runs@[i] == 0,
            })
    }

    /// An empty dependency set, to be grown with the positions of the
    /// upstream terms a new node will declare.
    pub fn upstream(&self) -> (s: IndexSet)
        ensures
            s@ == Seq::<int>::empty(),
    {
        TermSet::new()
    }

    pub fn new() -> (e: Self)
        ensures
            e.wf(),
            e.exprs() == Seq::<Expr>::empty(),
            e.cached() == Seq::<Option<ModelOf<Expr>>>::empty(),
    {
        let e = SimpleEngine { terms: Vec::new(), runs: Ghost(Seq::empty()) };
        proof {
            assert(e.exprs() =~= Seq::<Expr>::empty());
            assert(e.cached() =~= Seq::<Option<ModelOf<Expr>>>::empty());
        }
        e
    }

    /// Registers a computation whose declared dependencies are
    /// already-registered nodes, and returns the new node's handle.
    /// The node's cache starts empty: nothing is evaluated yet.
    pub fn term(&mut self, expr: Expr) -> (t: Term)
        requires
            old(self).wf(),
            forall|l: int|
                0 <= l < expr.spec_terms().len() ==> 0 <= #[trigger] expr.spec_terms()[l]
                    < old(self).exprs().len(),
        ensures
            final(self).wf(),
            final(self).exprs() == old(self).exprs().push(expr),
            final(self).cached() == old(self).cached().push(None::<ModelOf<Expr>>),
            t@ == old(self).exprs().len() as int,
    {
        let ghost old_exprs = self.exprs();
        let ghost old_cached = self.cached();
        let ghost e = expr;
        let upstream = expr.terms();
        let idx = self.terms.len();
        let cell = CacheCell::new();
        self.terms.push(Node { expr, upstream, cell });
        proof {
            self.runs@ = self.runs@.push(0);
            assert(self.exprs() =~= old_exprs.push(e));
            assert(self.cached() =~= old_cached.push(None::<ModelOf<Expr>>));
            assert forall|i: int| 0 <= i < old_exprs.len() implies denote(self.exprs(), i)
                == denote(old_exprs, i) by {
                lemma_denote_prefix(old_exprs, self.exprs(), i);
            }
        }
        Term::new(TermIndex(idx))
    }

    /// Recursive core of evaluation: if node `i` is ready this is a no-op;
    /// otherwise its dependencies are evaluated in declaration order (each
    /// by the same rule), then its own computation runs once and the result
    /// fills the cache. The first failure aborts the chain, and a failing
    /// node's cache is left empty.
    #[verifier::loop_isolation(false)]
    fn eval_impl(&mut self, i: usize) -> (r: Result<(), ExpressionError<Expr::Error>>)
        requires
            old(self).wf(),
            (i as int) < old(self).exprs().len(),
        ensures
            final(self).wf(),
            final(self).exprs() == old(self).exprs(),
            final(self).cached().len() == old(self).cached().len(),
            forall|k: int|
                0 <= k < old(self).cached().len() && old(self).cached()[k] is Some
                    ==> final(self).cached()[k] == old(self).cached()[k],
            forall|k: int|
                (i as int) < k < old(self).cached().len()
                    ==> final(self).cached()[k] == old(self).cached()[k],
            r is Ok <==> denote(old(self).exprs(), i as int) is Ok,
            r is Ok ==> final(self).cached()[i as int] == Some(
                denote(old(self).exprs(), i as int)->Ok_0,
            ),
            r matches Err(err) ==> err == ExpressionError::Eval(
                denote(old(self).exprs(), i as int)->Err_0,
            ) && final(self).cached()[i as int] is None,
            old(self).cached()[i as int] is Some ==> final(self).cached() == old(self).cached()
                && final(self).runs() == old(self).runs(),
        decreases i,
    {
        let ghost exprs0 = self.exprs();
        let ghost cached0 = self.cached();
        let ghost deps = exprs0[i as int].spec_terms();
        let ghost n_total = self.terms@.len();

        if self.terms[i].cell.is_set() {
            return Ok(());
        }
        proof {
            assert(self.terms@[i as int].upstream@ == deps);
        }
        let n_deps = self.terms[i].upstream.len();

        let mut k: usize = 0;
        while k < n_deps
            invariant
                self.wf(),
                self.exprs() == exprs0,
                self.cached().len() == n_total,
                k <= n_deps,
                forall|m: int| 0 <= m < k ==> denote(exprs0, #[trigger] deps[m]) is Ok,
                forall|m: int| 0 <= m < k ==> self.cached()[#[trigger] deps[m]] is Some,
                forall|t: int|
                    0 <= t < n_total && cached0[t] is Some ==> self.cached()[t] == cached0[t],
                forall|t: int| i as int <= t < n_total ==> self.cached()[t] == cached0[t],
            decreases n_deps - k,
        {
            let d = self.terms[i].upstream.get(k);
            let dd = d.position();
            proof {
                assert(d@ == deps[k as int]);
                assert(0 <= deps[k as int] < i as int);
            }
            match self.eval_impl(dd) {
                Ok(()) => {},
                Err(e) => {
                    proof {
                        lemma_inputs_first_error(exprs0, i as int, 0, k as int);
                    }
                    return Err(e);
                },
            }
            k = k + 1;
        }

        let mut inputs: Vec<&Expr::Value> = Vec::new();
        let mut k2: usize = 0;
        while k2 < n_deps
            invariant
                k2 <= n_deps,
                inputs@.len() == k2,
                forall|m: int|
                    0 <= m < k2 ==> (#[trigger] inputs@[m])@ == denote(exprs0, deps[m])->Ok_0,
            decreases n_deps - k2,
        {
            let d = self.terms[i].upstream.get(k2);
            let dd = d.position();
            proof {
                assert(d@ == deps[k2 as int]);
                assert(self.cached()[deps[k2 as int]] is Some);
                assert(self.terms@[dd as int].cell.contents() is Some);
            }
            let vref = self.terms[dd].cell.get();
            inputs.push(vref);
            k2 = k2 + 1;
        }

        proof {
            lemma_inputs_all_ok(exprs0, i as int, 0);
            assert(inputs@.len() == deps.len());
            assert forall|m: int| 0 <= m < deps.len() implies view_refs(inputs@)[m]
                == denote_inputs(exprs0, i as int, 0)->Ok_0[m] by {
                assert(denote_inputs(exprs0, i as int, 0)->Ok_0[m - 0] == denote(
                    exprs0,
                    deps[m],
                )->Ok_0);
                assert(view_refs(inputs@)[m] == (inputs@[m])@);
            }
            assert(view_refs(inputs@) =~= denote_inputs(exprs0, i as int, 0)->Ok_0);
        }
        let r = self.terms[i].expr.eval(&inputs);
        let ghost cached_mid = self.cached();
        let ghost runs_before = self.runs@;
        proof {
            self.runs@ = runs_before.update(i as int, (runs_before[i as int] + 1) as nat);
        }
        match r {
            Ok(v) => {
                let ghost value = v@;
                proof {
                    assert(denote(exprs0, i as int) == Ok::<ModelOf<Expr>, Expr::Error>(value));
                    assert(runs_before[i as int] == 0);
                }
                let node = &mut self.terms[i];
                let sr = node.cell.set(v);
                proof {
                    assert(sr is Ok);
                    assert(self.exprs() =~= exprs0);
                    assert(self.cached() =~= cached_mid.update(i as int, Some(value)));
                    assert(self.wf());
                }
                Ok(())
            },
            Err(e) => {
                proof {
                    assert(denote(exprs0, i as int) == Err::<ModelOf<Expr>, Expr::Error>(e));
                    assert(self.cached() == cached_mid);
                    assert(self.wf());
                }
                Err(ExpressionError::Eval(e))
            },
        }
    }

    /// Requests the value of the node behind `term`. Exactly the
    /// not-yet-ready part of the node's dependency graph is evaluated
    /// first; ready nodes answer from their cache, so evaluating a ready
    /// node again changes nothing and returns the identical value.
    pub fn eval(&mut self, term: &Term) -> (r: ExpressionResult<
        TermResult<Expr::Value>,
        Expr::Error,
    >)
        requires
            old(self).wf(),
            0 <= term@ < old(self).exprs().len(),
        ensures
            final(self).wf(),
            final(self).exprs() == old(self).exprs(),
            final(self).cached().len() == old(self).cached().len(),
            forall|k: int|
                0 <= k < old(self).cached().len() && old(self).cached()[k] is Some
                    ==> final(self).cached()[k] == old(self).cached()[k],
            forall|k: int|
                term@ < k < old(self).cached().len()
                    ==> final(self).cached()[k] == old(self).cached()[k],
            denote(old(self).exprs(), term@) matches Ok(v) ==> r matches Ok(tr)
                && tr.spec_value()@ == v && tr.spec_term() == term@ && final(self).cached()[term@]
                == Some(v),
            denote(old(self).exprs(), term@) matches Err(e) ==> r == Err::<
                TermResult<Expr::Value>,
                ExpressionError<Expr::Error>,
            >(ExpressionError::Eval(e)) && final(self).cached()[term@] is None,
            old(self).cached()[term@] is Some ==> final(self).cached() == old(self).cached()
                && final(self).runs() == old(self).runs(),
    {
        let ti = term.term();
        let idx = ti.position();
        proof {
            assert((idx as int) < self.terms@.len());
        }
        match self.eval_impl(idx) {
            Ok(()) => {
                proof {
                    assert(self.terms@[idx as int].cell.contents() is Some);
                }
                let vref = self.terms[idx].cell.get();
                let value = Expr::clone_value(vref);
                Ok(TermResult::make(ti, value))
            },
            Err(e) => Err(e),
        }
    }

    /// Law (memoization, idempotence): a node whose cache is set had its
    /// computation run exactly once — however many downstream nodes share
    /// it and however many times `eval` was called — and what it caches is
    /// the node's denotation.
    pub proof fn lemma_memoized_once(&self, j: int)
        requires
            self.wf(),
            0 <= j < self.cached().len(),
            self.cached()[j] is Some,
        ensures
            self.runs()[j] == 1,
            denote(self.exprs(), j) == Ok::<ModelOf<Expr>, Expr::Error>(self.cached()[j]->0),
    {
        assert(self.terms@[j].cell.contents() is Some);
    }

    /// Law (failure isolation): a node whose denotation fails is never
    /// marked ready — its cache stays empty, so a later request is free to
    /// run it again.
    pub proof fn lemma_failed_never_cached(&self, j: int)
        requires
            self.wf(),
            0 <= j < self.cached().len(),
            denote(self.exprs(), j) is Err,
        ensures
            self.cached()[j] is None,
    {
        match self.terms@[j].cell.contents() {
            Some(v) => {
                assert(denote(self.exprs(), j) == Ok::<ModelOf<Expr>, Expr::Error>(v@));
            },
            None => {},
        }
    }

    /// The three views of a well-formed engine describe the same nodes.
    pub proof fn lemma_view_sizes(&self)
        requires
            self.wf(),
        ensures
            self.cached().len() == self.exprs().len(),
            self.runs().len() == self.exprs().len(),
    {
    }

    /// A well-formed engine's node table is well-formed: every node's
    /// dependencies point strictly earlier in the table.
    pub proof fn lemma_wf_exprs(&self)
        requires
            self.wf(),
        ensures
            wf_exprs(self.exprs()),
    {
    }
}

} // verus!

