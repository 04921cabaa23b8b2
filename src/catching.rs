use vstd::prelude::*;
use crate::poll::{Async, Poll, is_item, item_of};
use crate::stream::Stream;

verus! {

/// A fault intercepted while a stream was advanced: what the aborted
/// computation left as its message.
pub struct Fault {
    pub message: String,
}

/// A stream that turns an abort of its inner stream's advance into an item
/// `Err(fault)`, and hands the inner stream's items out as `Ok(item)`.
///
/// Verified streams never abort, so advancing through `poll` passes every
/// outcome through; a driver that runs the inner advance inside a fault
/// boundary (see `inner_mut`) hands what came of it to `settle`.
pub struct CatchUnwind<S: Stream> {
    stream: S,
    produced: Ghost<Seq<Result<S::Item, Fault>>>,
}

/// Wraps `stream` so that an abort of its advance becomes an item.
pub fn new<S: Stream>(stream: S) -> (c: CatchUnwind<S>)
    ensures
        c.inner() == stream,
        c.produced().len() == 0,
{
    CatchUnwind { stream, produced: Ghost(Seq::empty()) }
}

/// The step of the adapted stream for one outcome of the inner advance:
/// `Ok(step)` if it returned `step`, `Err(fault)` if it aborted.
pub open spec fn settled<I, E>(outcome: Result<Poll<Option<I>, E>, Fault>) -> Poll<Option<Result<I, Fault>>, E> {
    match outcome {
        Ok(Ok(Async::Ready(Some(x)))) => Ok(Async::Ready(Some(Ok(x)))),
        Ok(Ok(Async::Ready(None))) => Ok(Async::Ready(None)),
        Ok(Ok(Async::NotReady)) => Ok(Async::NotReady),
        Ok(Err(e)) => Err(e),
        Err(fault) => Ok(Async::Ready(Some(Err(fault)))),
    }
}

/// The inner step that an adapted step which is no intercepted fault came from.
pub open spec fn unsettled<I, E>(r: Poll<Option<Result<I, Fault>>, E>) -> Poll<Option<I>, E> {
    match r {
        Ok(Async::Ready(Some(Ok(x)))) => Ok(Async::Ready(Some(x))),
        Ok(Async::Ready(Some(Err(_)))) => Ok(Async::NotReady),
        Ok(Async::Ready(None)) => Ok(Async::Ready(None)),
        Ok(Async::NotReady) => Ok(Async::NotReady),
        Err(e) => Err(e),
    }
}

/// Turns one outcome of the inner advance into the adapted stream's step:
/// an item `x` becomes `Ok(x)`, an abort becomes the item `Err(fault)`, and
/// the end, a wait or an error pass through.
pub fn settle<I, E>(outcome: Result<Poll<Option<I>, E>, Fault>) -> (r: Poll<Option<Result<I, Fault>>, E>)
    ensures
        r == settled(outcome),
{
    match outcome {
        Ok(Ok(Async::Ready(Some(x)))) => Ok(Async::Ready(Some(Ok(x)))),
        Ok(Ok(Async::Ready(None))) => Ok(Async::Ready(None)),
        Ok(Ok(Async::NotReady)) => Ok(Async::NotReady),
        Ok(Err(e)) => Err(e),
        Err(fault) => Ok(Async::Ready(Some(Err(fault)))),
    }
}

impl<S: Stream> CatchUnwind<S> {
    /// The wrapped stream.
    pub closed spec fn inner(&self) -> S {
        self.stream
    }

    /// The wrapped stream, for a driver that advances it inside a fault
    /// boundary.
    pub fn inner_mut(&mut self) -> (s: &mut S)
        ensures
            *s == old(self).inner(),
            final(self).inner() == *final(s),
            final(self).produced() == old(self).produced(),
    {
        &mut self.stream
    }
}

impl<S: Stream> Stream for CatchUnwind<S> {
    type Item = Result<S::Item, Fault>;
    type Error = S::Error;

    closed spec fn produced(&self) -> Seq<Result<S::Item, Fault>> {
        self.produced@
    }

    open spec fn inv(&self) -> bool {
        self.inner().inv()
    }

    open spec fn polled(&self, after: Self, r: Poll<Option<Result<S::Item, Fault>>, S::Error>) -> bool {
        &&& !(r matches Ok(Async::Ready(Some(Err(_)))))
        &&& self.inner().polled(after.inner(), unsettled(r))
    }

    fn poll(&mut self) -> (r: Poll<Option<Result<S::Item, Fault>>, S::Error>) {
        let inner = self.stream.poll();
        let r = settle(Ok(inner));
        proof {
            if is_item(r) {
                self.produced@ = self.produced@.push(item_of(r));
            }
        }
        r
    }
}

} // verus!
