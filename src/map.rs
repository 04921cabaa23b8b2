use vstd::prelude::*;
use crate::poll::{Async, Poll};
use crate::stream::{Stream, steps};

verus! {

/// A stream that hands out `f(x)` for each item `x` of its inner stream and
/// passes the end, waits and errors through.
#[verifier::reject_recursive_types(U)]
pub struct MapStream<S: Stream, F, U> where F: Fn(S::Item) -> U {
    stream: S,
    f: F,
    produced: Ghost<Seq<U>>,
    /// How many items the inner stream had handed out before mapping began.
    base: Ghost<nat>,
}

/// Whether one advance of `s` to `s2` handed out an item that `f` turned
/// into `y`.
pub open spec fn mapped_step<S: Stream, F, U>(f: F, s: S, s2: S, y: U) -> bool where F: Fn(S::Item) -> U {
    exists|x: S::Item| #[trigger] f.ensures((x,), y) && steps(s, s2, Ok(Async::Ready(Some(x))))
}

/// Whether `out` is what `f` made of the items of `items` from position
/// `base` on, one for one.
pub open spec fn maps_all<T, F, U>(f: F, items: Seq<T>, base: int, out: Seq<U>) -> bool where F: Fn(T) -> U {
    &&& 0 <= base
    &&& base + out.len() == items.len()
    &&& forall|i: int| 0 <= i < out.len() ==> #[trigger] f.ensures((items[base + i],), out[i])
}

/// Maps the items of `stream` through `f`.
pub fn new<S: Stream, F, U>(stream: S, f: F) -> (m: MapStream<S, F, U>) where F: Fn(S::Item) -> U
    requires
        stream.inv(),
        forall|x: S::Item| #[trigger] f.requires((x,)),
    ensures
        m.inner() == stream,
        m.function() == f,
        m.produced().len() == 0,
        m.inner_base() == stream.produced().len(),
        m.inv(),
{
    MapStream { stream, f, produced: Ghost(Seq::empty()), base: Ghost(stream.produced().len()) }
}

impl<S: Stream, F, U> MapStream<S, F, U> where F: Fn(S::Item) -> U {
    /// The wrapped stream.
    pub closed spec fn inner(&self) -> S {
        self.stream
    }

    /// The function applied to each item.
    pub closed spec fn function(&self) -> F {
        self.f
    }

    /// How many items the inner stream had handed out before mapping began.
    pub closed spec fn inner_base(&self) -> nat {
        self.base@
    }
}

impl<S: Stream, F, U> Stream for MapStream<S, F, U> where F: Fn(S::Item) -> U {
    type Item = U;
    type Error = S::Error;

    closed spec fn produced(&self) -> Seq<U> {
        self.produced@
    }

    open spec fn inv(&self) -> bool {
        &&& self.inner().inv()
        &&& forall|x: S::Item| #[trigger] self.function().requires((x,))
        &&& maps_all(self.function(), self.inner().produced(), self.inner_base() as int, self.produced())
    }

    open spec fn polled(&self, after: Self, r: Poll<Option<U>, S::Error>) -> bool {
        &&& after.function() == self.function()
        &&& after.inner_base() == self.inner_base()
        &&& match r {
            Ok(Async::Ready(Some(y))) => mapped_step(self.function(), self.inner(), after.inner(), y),
            Ok(Async::Ready(None)) => steps(self.inner(), after.inner(), Ok(Async::Ready(None))),
            Ok(Async::NotReady) => steps(self.inner(), after.inner(), Ok(Async::NotReady)),
            Err(e) => steps(self.inner(), after.inner(), Err(e)),
        }
    }

    fn poll(&mut self) -> (r: Poll<Option<U>, S::Error>) {
        let ghost out0 = self.produced@;
        let ghost pi0 = self.stream.produced();
        let ri = self.stream.poll();
        match ri {
            Ok(Async::Ready(Some(x))) => {
                let ghost xg = x;
                assert(old(self).function().requires((xg,)));
                let y = (self.f)(x);
                proof {
                    self.produced@ = self.produced@.push(y);
                    assert(old(self).function().ensures((xg,), y));
                    let b = self.base@ as int;
                    let pi = self.stream.produced();
                    assert(pi == pi0.push(xg));
                    assert(maps_all(old(self).function(), pi0, b, out0));
                    assert forall|i: int| 0 <= i < self.produced@.len()
                        implies #[trigger] self.function().ensures((pi[b + i],), self.produced()[i]) by {
                        if i < out0.len() {
                            assert(old(self).function().ensures((pi0[b + i],), out0[i]));
                        }
                    };
                    assert(maps_all(self.function(), pi, b, self.produced()));
                }
                assert(steps(old(self).inner(), self.inner(), Ok(Async::Ready(Some(xg)))));
                Ok(Async::Ready(Some(y)))
            },
            Ok(Async::Ready(None)) => Ok(Async::Ready(None)),
            Ok(Async::NotReady) => Ok(Async::NotReady),
            Err(e) => {
                assert(steps(old(self).inner(), self.inner(), Err(e)));
                Err(e)
            },
        }
    }
}

/// The `i`-th item of a mapped stream is what the function made of the
/// `i`-th item its inner stream handed out since mapping began.
pub proof fn lemma_map_items<S: Stream, F, U>(m: MapStream<S, F, U>, i: int) where F: Fn(S::Item) -> U
    requires
        m.inv(),
        0 <= i < m.produced().len(),
    ensures
        m.function().ensures((m.inner().produced()[m.inner_base() + i],), m.produced()[i]),
{
    assert(maps_all(m.function(), m.inner().produced(), m.inner_base() as int, m.produced()));
}

} // verus!
