use vstd::prelude::*;
use crate::poll::{Async, Poll};

verus! {

/// A computation that resolves once, to a value or an error.
///
/// `poll` never blocks: `NotReady` means the current task will be notified
/// when progress may be possible.
pub trait Future: Sized {
    /// The value this future resolves to.
    type Item;
    /// The error it may resolve to instead.
    type Error;

    /// Whether the future's own state is consistent.
    spec fn inv(&self) -> bool;

    /// What one poll of this future does: from state `self` it may return
    /// `r` and move to state `after`.
    spec fn polled(&self, after: Self, r: Poll<Self::Item, Self::Error>) -> bool;

    /// Attempts to resolve the future.
    fn poll(&mut self) -> (r: Poll<Self::Item, Self::Error>)
        requires
            old(self).inv(),
        ensures
            final(self).inv(),
            old(self).polled(*final(self), r),
    ;
}

/// A future that makes the caller wait a given number of times and then
/// resolves to a fixed result.
pub struct Delayed<T, E> {
    waits: u64,
    result: Option<Result<T, E>>,
}

/// A future that resolves to `result` on its `waits + 1`-th poll.
pub fn delayed<T, E>(waits: u64, result: Result<T, E>) -> (f: Delayed<T, E>)
    ensures
        f.waits_left() == waits,
        f.outcome() == Some(result),
{
    Delayed { waits, result: Some(result) }
}

/// A future that resolves to `result` on its first poll.
pub fn ready<T, E>(result: Result<T, E>) -> (f: Delayed<T, E>)
    ensures
        f.waits_left() == 0,
        f.outcome() == Some(result),
{
    delayed(0, result)
}

impl<T, E> Delayed<T, E> {
    /// How many more polls will make the caller wait.
    pub closed spec fn waits_left(&self) -> nat {
        self.waits as nat
    }

    /// The result still to be handed out; `None` once it has been.
    pub closed spec fn outcome(&self) -> Option<Result<T, E>> {
        self.result
    }
}

impl<T, E> Future for Delayed<T, E> {
    type Item = T;
    type Error = E;

    open spec fn inv(&self) -> bool {
        true
    }

    open spec fn polled(&self, after: Self, r: Poll<T, E>) -> bool {
        if self.waits_left() > 0 {
            &&& r == Ok::<Async<T>, E>(Async::NotReady)
            &&& after.waits_left() == self.waits_left() - 1
            &&& after.outcome() == self.outcome()
        } else {
            &&& after.waits_left() == 0
            &&& after.outcome() is None
            &&& match self.outcome() {
                Some(Ok(v)) => r == Ok::<Async<T>, E>(Async::Ready(v)),
                Some(Err(e)) => r == Err::<Async<T>, E>(e),
                None => r == Ok::<Async<T>, E>(Async::NotReady),
            }
        }
    }

    fn poll(&mut self) -> (r: Poll<T, E>) {
        if self.waits > 0 {
            self.waits = self.waits - 1;
            return Ok(Async::NotReady);
        }
        match self.result.take() {
            Some(Ok(v)) => Ok(Async::Ready(v)),
            Some(Err(e)) => Err(e),
            None => Ok(Async::NotReady),
        }
    }
}

} // verus!
