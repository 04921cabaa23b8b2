use vstd::prelude::*;
use crate::buffered::resolves;
use crate::future::Future;
use crate::poll::{Async, Poll};
use crate::stream::{Stream, steps};

verus! {

/// A stream that runs `f(x)`, a future, for each item `x` of its inner
/// stream and hands out what the future resolves to; the next item is pulled
/// only once that future has resolved. Errors of the inner stream and of the
/// futures are passed through.
#[verifier::reject_recursive_types(Fut)]
pub struct AndThen<S: Stream, F, Fut> where
    F: Fn(S::Item) -> Fut,
    Fut: Future<Error = S::Error>,
 {
    stream: S,
    f: F,
    future: Option<Fut>,
    produced: Ghost<Seq<Fut::Item>>,
}

/// One poll of the future `fu`, leaving `pending` behind and returning `r`:
/// a value is handed out, an error reported, or the future stays pending.
pub open spec fn future_step<Fut: Future>(fu: Fut, pending: Option<Fut>, r: Poll<Option<Fut::Item>, Fut::Error>) -> bool {
    match r {
        Ok(Async::Ready(Some(v))) => pending is None && resolves(fu, Ok(Async::Ready(v))),
        Err(e) => pending is None && resolves(fu, Err(e)),
        Ok(Async::NotReady) => pending matches Some(fu2) && fu.polled(fu2, Ok(Async::NotReady)),
        Ok(Async::Ready(None)) => false,
    }
}

/// Whether the inner stream went from `s` to `s2` handing out an item `x`,
/// and the future `f(x)` was polled once as `future_step` says.
pub open spec fn started<S: Stream, F, Fut>(f: F, s: S, s2: S, pending: Option<Fut>, r: Poll<Option<Fut::Item>, S::Error>) -> bool where
    F: Fn(S::Item) -> Fut,
    Fut: Future<Error = S::Error>,
{
    exists|x: S::Item, fu: Fut| #[trigger] f.ensures((x,), fu)
        && steps(s, s2, Ok(Async::Ready(Some(x))))
        && future_step(fu, pending, r)
}

/// Whether the inner stream went from `s` to `s2` with a step that is no
/// item, which is passed through as `r`.
pub open spec fn passed<S: Stream, V>(s: S, s2: S, r: Poll<Option<V>, S::Error>) -> bool {
    match r {
        Ok(Async::Ready(None)) => steps(s, s2, Ok(Async::Ready(None))),
        Ok(Async::NotReady) => steps(s, s2, Ok(Async::NotReady)),
        Err(e) => steps(s, s2, Err(e)),
        Ok(Async::Ready(Some(_))) => false,
    }
}

/// Whether `f` may be called on every item and always returns a
/// well-formed future.
pub open spec fn steps_well<S: Stream, F, Fut>(f: F, s: S) -> bool where
    F: Fn(S::Item) -> Fut,
    Fut: Future<Error = S::Error>,
{
    &&& forall|x: S::Item| #[trigger] f.requires((x,))
    &&& forall|x: S::Item, fu: Fut| #[trigger] f.ensures((x,), fu) ==> fu.inv()
}

/// Runs `f` on each item of `stream` and hands out what its future resolves to.
pub fn new<S: Stream, F, Fut>(stream: S, f: F) -> (a: AndThen<S, F, Fut>) where
    F: Fn(S::Item) -> Fut,
    Fut: Future<Error = S::Error>,
    requires
        stream.inv(),
        steps_well(f, stream),
    ensures
        a.inner() == stream,
        a.function() == f,
        a.pending() is None,
        a.produced().len() == 0,
        a.inv(),
{
    AndThen { stream, f, future: None, produced: Ghost(Seq::empty()) }
}

impl<S: Stream, F, Fut> AndThen<S, F, Fut> where
    F: Fn(S::Item) -> Fut,
    Fut: Future<Error = S::Error>,
 {
    /// The wrapped stream.
    pub closed spec fn inner(&self) -> S {
        self.stream
    }

    /// The function run on each item.
    pub closed spec fn function(&self) -> F {
        self.f
    }

    /// The future still running for the last item, if any.
    pub closed spec fn pending(&self) -> Option<Fut> {
        self.future
    }
}

impl<S: Stream, F, Fut> Stream for AndThen<S, F, Fut> where
    F: Fn(S::Item) -> Fut,
    Fut: Future<Error = S::Error>,
 {
    type Item = Fut::Item;
    type Error = S::Error;

    closed spec fn produced(&self) -> Seq<Fut::Item> {
        self.produced@
    }

    open spec fn inv(&self) -> bool {
        &&& self.inner().inv()
        &&& steps_well(self.function(), self.inner())
        &&& self.pending() matches Some(fu) ==> fu.inv()
    }

    open spec fn polled(&self, after: Self, r: Poll<Option<Fut::Item>, S::Error>) -> bool {
        &&& after.function() == self.function()
        &&& match self.pending() {
            Some(fu) => after.inner() == self.inner() && future_step(fu, after.pending(), r),
            None => {
                ||| started(self.function(), self.inner(), after.inner(), after.pending(), r)
                ||| passed(self.inner(), after.inner(), r) && after.pending() is None
            },
        }
    }

    fn poll(&mut self) -> (r: Poll<Option<Fut::Item>, S::Error>) {
        let ghost s0 = self.stream;
        if self.future.is_none() {
            match self.stream.poll() {
                Ok(Async::Ready(Some(x))) => {
                    let ghost xg = x;
                    assert(old(self).function().requires((xg,)));
                    let fu = (self.f)(x);
                    assert(old(self).function().ensures((xg,), fu));
                    assert(steps(s0, self.stream, Ok(Async::Ready(Some(xg)))));
                    self.future = Some(fu);
                },
                Ok(Async::Ready(None)) => {
                    assert(passed(s0, self.stream, Ok::<Async<Option<Fut::Item>>, S::Error>(Async::Ready(None))));
                    return Ok(Async::Ready(None));
                },
                Ok(Async::NotReady) => {
                    assert(passed(s0, self.stream, Ok::<Async<Option<Fut::Item>>, S::Error>(Async::NotReady)));
                    return Ok(Async::NotReady);
                },
                Err(e) => {
                    assert(passed(s0, self.stream, Err::<Async<Option<Fut::Item>>, S::Error>(e)));
                    return Err(e);
                },
            }
        }
        let mut fu = self.future.take().unwrap();
        let ghost fu0 = fu;
        let rf = fu.poll();
        assert(fu0.polled(fu, rf));
        match rf {
            Ok(Async::Ready(v)) => {
                proof {
                    self.produced@ = self.produced@.push(v);
                }
                assert(future_step(fu0, self.future, Ok(Async::Ready(Some(v)))));
                Ok(Async::Ready(Some(v)))
            },
            Ok(Async::NotReady) => {
                self.future = Some(fu);
                assert(future_step(fu0, self.future, Ok(Async::NotReady)));
                Ok(Async::NotReady)
            },
            Err(e) => {
                assert(future_step(fu0, self.future, Err(e)));
                Err(e)
            },
        }
    }
}

} // verus!
