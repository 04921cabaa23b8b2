use vstd::prelude::*;
use crate::poll::{Async, Poll};
use crate::stream::{Stream, steps};

verus! {

/// A stream that reports `f(e)` for each error `e` of its inner stream and
/// passes items, waits and the end through.
#[verifier::reject_recursive_types(U)]
pub struct MapErr<S: Stream, F, U> where F: Fn(S::Error) -> U {
    stream: S,
    f: F,
    /// The error type that `f` produces.
    marker: Ghost<U>,
}

/// Whether one advance of `s` to `s2` reported an error that `f` turned
/// into `u`.
pub open spec fn mapped_error<S: Stream, F, U>(f: F, s: S, s2: S, u: U) -> bool where F: Fn(S::Error) -> U {
    exists|e: S::Error| #[trigger] f.ensures((e,), u) && steps(s, s2, Err(e))
}

/// Whether `f` may be called on every error of `s`.
pub open spec fn takes_every_error<S: Stream, F, U>(f: F, s: S) -> bool where F: Fn(S::Error) -> U {
    forall|e: S::Error| #[trigger] f.requires((e,))
}

/// Maps the errors of `stream` through `f`.
pub fn new<S: Stream, F, U>(stream: S, f: F) -> (m: MapErr<S, F, U>) where F: Fn(S::Error) -> U
    requires
        stream.inv(),
        takes_every_error(f, stream),
    ensures
        m.inv(),
        m.inner() == stream,
        m.function() == f,
{
    MapErr { stream, f, marker: Ghost(arbitrary()) }
}

impl<S: Stream, F, U> MapErr<S, F, U> where F: Fn(S::Error) -> U {
    /// The wrapped stream.
    pub closed spec fn inner(&self) -> S {
        self.stream
    }

    /// The function applied to each error.
    pub closed spec fn function(&self) -> F {
        self.f
    }
}

impl<S: Stream, F, U> Stream for MapErr<S, F, U> where F: Fn(S::Error) -> U {
    type Item = S::Item;
    type Error = U;

    open spec fn produced(&self) -> Seq<S::Item> {
        self.inner().produced()
    }

    open spec fn inv(&self) -> bool {
        &&& self.inner().inv()
        &&& takes_every_error(self.function(), self.inner())
    }

    open spec fn polled(&self, after: Self, r: Poll<Option<S::Item>, U>) -> bool {
        &&& after.function() == self.function()
        &&& match r {
            Err(u) => mapped_error(self.function(), self.inner(), after.inner(), u),
            Ok(a) => steps(self.inner(), after.inner(), Ok(a)),
        }
    }

    fn poll(&mut self) -> (r: Poll<Option<S::Item>, U>) {
        match self.stream.poll() {
            Ok(a) => Ok(a),
            Err(e) => {
                let ghost eg = e;
                assert(old(self).function().requires((eg,)));
                let u = (self.f)(e);
                assert(old(self).function().ensures((eg,), u));
                assert(steps(old(self).inner(), self.inner(), Err(eg)));
                Err(u)
            },
        }
    }
}

} // verus!
