use vstd::prelude::*;
use crate::and_then::future_step;
use crate::future::Future;
use crate::poll::{Async, Poll};
use crate::stream::{Stream, steps};

verus! {

/// A stream that runs `f(res)`, a future, for each result `res` of its inner
/// stream, `Ok(item)` or `Err(error)`, and hands out what the future resolves
/// to; the next result is pulled only once that future has resolved. Waits
/// and the end are passed through.
#[verifier::reject_recursive_types(Fut)]
pub struct Then<S: Stream, F, Fut> where
    F: Fn(Result<S::Item, S::Error>) -> Fut,
    Fut: Future,
 {
    stream: S,
    f: F,
    future: Option<Fut>,
    produced: Ghost<Seq<Fut::Item>>,
}

/// Whether the inner stream went from `s` to `s2` with a result `res`, an
/// item or an error, and the future `f(res)` was polled once as
/// `future_step` says.
pub open spec fn started_with<S: Stream, F, Fut>(f: F, s: S, s2: S, pending: Option<Fut>, r: Poll<Option<Fut::Item>, Fut::Error>) -> bool where
    F: Fn(Result<S::Item, S::Error>) -> Fut,
    Fut: Future,
{
    exists|res: Result<S::Item, S::Error>, fu: Fut| #[trigger] f.ensures((res,), fu)
        && steps(s, s2, match res {
            Ok(x) => Ok(Async::Ready(Some(x))),
            Err(e) => Err(e),
        })
        && future_step(fu, pending, r)
}

/// Whether `f` may be called on every result and always returns a
/// well-formed future.
pub open spec fn handles_well<S: Stream, F, Fut>(f: F, s: S) -> bool where
    F: Fn(Result<S::Item, S::Error>) -> Fut,
    Fut: Future,
{
    &&& forall|res: Result<S::Item, S::Error>| #[trigger] f.requires((res,))
    &&& forall|res: Result<S::Item, S::Error>, fu: Fut| #[trigger] f.ensures((res,), fu) ==> fu.inv()
}

/// Runs `f` on each result of `stream` and hands out what its future resolves to.
pub fn new<S: Stream, F, Fut>(stream: S, f: F) -> (t: Then<S, F, Fut>) where
    F: Fn(Result<S::Item, S::Error>) -> Fut,
    Fut: Future,
    requires
        stream.inv(),
        handles_well(f, stream),
    ensures
        t.inner() == stream,
        t.function() == f,
        t.pending() is None,
        t.produced().len() == 0,
        t.inv(),
{
    Then { stream, f, future: None, produced: Ghost(Seq::empty()) }
}

impl<S: Stream, F, Fut> Then<S, F, Fut> where
    F: Fn(Result<S::Item, S::Error>) -> Fut,
    Fut: Future,
 {
    /// The wrapped stream.
    pub closed spec fn inner(&self) -> S {
        self.stream
    }

    /// The function run on each result.
    pub closed spec fn function(&self) -> F {
        self.f
    }

    /// The future still running for the last result, if any.
    pub closed spec fn pending(&self) -> Option<Fut> {
        self.future
    }
}

impl<S: Stream, F, Fut> Stream for Then<S, F, Fut> where
    F: Fn(Result<S::Item, S::Error>) -> Fut,
    Fut: Future,
 {
    type Item = Fut::Item;
    type Error = Fut::Error;

    closed spec fn produced(&self) -> Seq<Fut::Item> {
        self.produced@
    }

    open spec fn inv(&self) -> bool {
        &&& self.inner().inv()
        &&& handles_well(self.function(), self.inner())
        &&& self.pending() matches Some(fu) ==> fu.inv()
    }

    open spec fn polled(&self, after: Self, r: Poll<Option<Fut::Item>, Fut::Error>) -> bool {
        &&& after.function() == self.function()
        &&& match self.pending() {
            Some(fu) => after.inner() == self.inner() && future_step(fu, after.pending(), r),
            None => {
                ||| started_with(self.function(), self.inner(), after.inner(), after.pending(), r)
                ||| r == Ok::<Async<Option<Fut::Item>>, Fut::Error>(Async::Ready(None))
                    && steps(self.inner(), after.inner(), Ok(Async::Ready(None))) && after.pending() is None
                ||| r == Ok::<Async<Option<Fut::Item>>, Fut::Error>(Async::NotReady)
                    && steps(self.inner(), after.inner(), Ok(Async::NotReady)) && after.pending() is None
            },
        }
    }

    fn poll(&mut self) -> (r: Poll<Option<Fut::Item>, Fut::Error>) {
        let ghost s0 = self.stream;
        if self.future.is_none() {
            let res = match self.stream.poll() {
                Ok(Async::Ready(Some(x))) => Ok(x),
                Ok(Async::Ready(None)) => {
                    return Ok(Async::Ready(None));
                },
                Ok(Async::NotReady) => {
                    return Ok(Async::NotReady);
                },
                Err(e) => Err(e),
            };
            let ghost resg = res;
            assert(old(self).function().requires((resg,)));
            let fu = (self.f)(res);
            assert(old(self).function().ensures((resg,), fu));
            assert(steps(s0, self.stream, match resg {
                Ok(x) => Ok(Async::Ready(Some(x))),
                Err(e) => Err(e),
            }));
            self.future = Some(fu);
        }
        let mut fu = self.future.take().unwrap();
        let ghost fu0 = fu;
        let rf = fu.poll();
        assert(fu0.polled(fu, rf));
        match rf {
            Ok(Async::Ready(v)) => {
                proof {
                    self.produced@ = self.produced@.push(v);
                }
                assert(future_step(fu0, self.future, Ok(Async::Ready(Some(v)))));
                Ok(Async::Ready(Some(v)))
            },
            Ok(Async::NotReady) => {
                self.future = Some(fu);
                assert(future_step(fu0, self.future, Ok(Async::NotReady)));
                Ok(Async::NotReady)
            },
            Err(e) => {
                assert(future_step(fu0, self.future, Err(e)));
                Err(e)
            },
        }
    }
}

} // verus!
