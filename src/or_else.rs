use vstd::prelude::*;
use crate::and_then::future_step;
use crate::future::Future;
use crate::poll::{Async, Poll, is_item, item_of};
use crate::stream::{Stream, steps};

verus! {

/// A stream that passes the items of its inner stream through and, for each
/// error `e`, runs `f(e)`, a future, handing out what it resolves to; the
/// next step is pulled only once that future has resolved.
#[verifier::reject_recursive_types(Fut)]
pub struct OrElse<S: Stream, F, Fut> where
    F: Fn(S::Error) -> Fut,
    Fut: Future<Item = S::Item>,
 {
    stream: S,
    f: F,
    future: Option<Fut>,
    produced: Ghost<Seq<S::Item>>,
}

/// Whether the inner stream went from `s` to `s2` reporting an error `e`,
/// and the future `f(e)` was polled once as `future_step` says.
pub open spec fn recovered<S: Stream, F, Fut>(f: F, s: S, s2: S, pending: Option<Fut>, r: Poll<Option<S::Item>, Fut::Error>) -> bool where
    F: Fn(S::Error) -> Fut,
    Fut: Future<Item = S::Item>,
{
    exists|e: S::Error, fu: Fut| #[trigger] f.ensures((e,), fu)
        && steps(s, s2, Err(e))
        && future_step(fu, pending, r)
}

/// Whether `f` may be called on every error and always returns a
/// well-formed future.
pub open spec fn recovers_well<S: Stream, F, Fut>(f: F, s: S) -> bool where
    F: Fn(S::Error) -> Fut,
    Fut: Future<Item = S::Item>,
{
    &&& forall|e: S::Error| #[trigger] f.requires((e,))
    &&& forall|e: S::Error, fu: Fut| #[trigger] f.ensures((e,), fu) ==> fu.inv()
}

/// Runs `f` on each error of `stream` and hands out what its future resolves to.
pub fn new<S: Stream, F, Fut>(stream: S, f: F) -> (o: OrElse<S, F, Fut>) where
    F: Fn(S::Error) -> Fut,
    Fut: Future<Item = S::Item>,
    requires
        stream.inv(),
        recovers_well(f, stream),
    ensures
        o.inner() == stream,
        o.function() == f,
        o.pending() is None,
        o.produced().len() == 0,
        o.inv(),
{
    OrElse { stream, f, future: None, produced: Ghost(Seq::empty()) }
}

impl<S: Stream, F, Fut> OrElse<S, F, Fut> where
    F: Fn(S::Error) -> Fut,
    Fut: Future<Item = S::Item>,
 {
    /// The wrapped stream.
    pub closed spec fn inner(&self) -> S {
        self.stream
    }

    /// The function run on each error.
    pub closed spec fn function(&self) -> F {
        self.f
    }

    /// The future still running for the last error, if any.
    pub closed spec fn pending(&self) -> Option<Fut> {
        self.future
    }
}

impl<S: Stream, F, Fut> Stream for OrElse<S, F, Fut> where
    F: Fn(S::Error) -> Fut,
    Fut: Future<Item = S::Item>,
 {
    type Item = S::Item;
    type Error = Fut::Error;

    closed spec fn produced(&self) -> Seq<S::Item> {
        self.produced@
    }

    open spec fn inv(&self) -> bool {
        &&& self.inner().inv()
        &&& recovers_well(self.function(), self.inner())
        &&& self.pending() matches Some(fu) ==> fu.inv()
    }

    open spec fn polled(&self, after: Self, r: Poll<Option<S::Item>, Fut::Error>) -> bool {
        &&& after.function() == self.function()
        &&& match self.pending() {
            Some(fu) => after.inner() == self.inner() && future_step(fu, after.pending(), r),
            None => {
                ||| recovered(self.function(), self.inner(), after.inner(), after.pending(), r)
                ||| after.pending() is None && match r {
                    Ok(a) => steps(self.inner(), after.inner(), Ok(a)),
                    Err(_) => false,
                }
            },
        }
    }

    fn poll(&mut self) -> (r: Poll<Option<S::Item>, Fut::Error>) {
        let ghost s0 = self.stream;
        if self.future.is_none() {
            match self.stream.poll() {
                Ok(a) => {
                    let r: Poll<Option<S::Item>, Fut::Error> = Ok(a);
                    proof {
                        if is_item(r) {
                            self.produced@ = self.produced@.push(item_of(r));
                        }
                    }
                    return r;
                },
                Err(e) => {
                    let ghost eg = e;
                    assert(old(self).function().requires((eg,)));
                    let fu = (self.f)(e);
                    assert(old(self).function().ensures((eg,), fu));
                    assert(steps(s0, self.stream, Err(eg)));
                    self.future = Some(fu);
                },
            }
        }
        let mut fu = self.future.take().unwrap();
        let ghost fu0 = fu;
        let rf = fu.poll();
        assert(fu0.polled(fu, rf));
        match rf {
            Ok(Async::Ready(v)) => {
                proof {
                    self.produced@ = self.produced@.push(v);
                }
                assert(future_step(fu0, self.future, Ok(Async::Ready(Some(v)))));
                Ok(Async::Ready(Some(v)))
            },
            Ok(Async::NotReady) => {
                self.future = Some(fu);
                assert(future_step(fu0, self.future, Ok(Async::NotReady)));
                Ok(Async::NotReady)
            },
            Err(e) => {
                assert(future_step(fu0, self.future, Err(e)));
                Err(e)
            },
        }
    }
}

} // verus!
