use vstd::prelude::*;

verus! {

/// A lazy, finite producer of a sequence of elements, consumed by draining
/// it fully. Not thread-safe; draining happens on a single thread during a
/// node's setup phase.
pub trait Generator: Sized {
    type Item;

    /// The elements still to be produced, in order.
    spec fn future(&self) -> Seq<Self::Item>;

    /// Produces the next element, or reports that the sequence is done.
    fn next_item(&mut self) -> (r: Option<Self::Item>)
        ensures
            match r {
                None => old(self).future().len() == 0 && final(self).future() == old(self).future(),
                Some(x) => old(self).future().len() > 0 && x == old(self).future()[0]
                    && final(self).future() == old(self).future().drop_first(),
            },
    ;
}

/// Drains a generator completely: what comes out is exactly what it had
/// left to produce, in production order.
#[verifier::loop_isolation(false)]
pub fn drain<G: Generator>(g: &mut G) -> (r: Vec<G::Item>)
    ensures
        r@ == old(g).future(),
        final(g).future().len() == 0,
{
    let mut out: Vec<G::Item> = Vec::new();
    let mut done: bool = false;
    while !done
        invariant
            done ==> g.future().len() == 0,
            out@ + g.future() == old(g).future(),
        decreases g.future().len() + (if done {
            0int
        } else {
            1int
        }),
    {
        match g.next_item() {
            Some(x) => {
                let ghost pre = out@;
                out.push(x);
                proof {
                    assert(out@ + g.future() =~= old(g).future());
                }
            },
            None => {
                done = true;
            },
        }
    }
    proof {
        assert(out@ =~= old(g).future());
    }
    out
}

/// A one-shot generator that yields a vector's elements front to back.
pub struct VecGenerator<T>(Vec<T>);

impl<T> VecGenerator<T> {
    pub fn new(items: Vec<T>) -> (g: Self)
        ensures
            g.future() == items@,
    {
        VecGenerator(items)
    }
}

impl<T> Generator for VecGenerator<T> {
    type Item = T;

    closed spec fn future(&self) -> Seq<T> {
        self.0@
    }

    fn next_item(&mut self) -> (r: Option<T>) {
        if self.0.len() == 0 {
            None
        } else {
            let x = self.0.remove(0);
            proof {
                assert(self.0@ =~= old(self).0@.drop_first());
            }
            Some(x)
        }
    }
}

} // verus!
