use vstd::prelude::*;
use crate::poll::{Async, Poll, is_item};
use crate::stream::{Stream, steps};

verus! {

/// A stream of at most `n` items of its inner stream; once they have been
/// handed out it reports the end without advancing the inner stream.
pub struct Take<S: Stream> {
    stream: S,
    remaining: u64,
}

/// Limits `stream` to its next `amt` items.
pub fn new<S: Stream>(stream: S, amt: u64) -> (t: Take<S>)
    ensures
        t.inner() == stream,
        t.remaining() == amt,
{
    Take { stream, remaining: amt }
}

impl<S: Stream> Take<S> {
    /// The wrapped stream.
    pub closed spec fn inner(&self) -> S {
        self.stream
    }

    /// How many more items may be handed out.
    pub closed spec fn remaining(&self) -> nat {
        self.remaining as nat
    }
}

impl<S: Stream> Stream for Take<S> {
    type Item = S::Item;
    type Error = S::Error;

    open spec fn produced(&self) -> Seq<S::Item> {
        self.inner().produced()
    }

    open spec fn inv(&self) -> bool {
        self.inner().inv()
    }

    open spec fn polled(&self, after: Self, r: Poll<Option<S::Item>, S::Error>) -> bool {
        if self.remaining() == 0 {
            &&& r == Ok::<Async<Option<S::Item>>, S::Error>(Async::Ready(None))
            &&& after == *self
        } else {
            &&& steps(self.inner(), after.inner(), r)
            &&& after.remaining() == if is_item(r) { (self.remaining() - 1) as nat } else { self.remaining() }
        }
    }

    fn poll(&mut self) -> (r: Poll<Option<S::Item>, S::Error>) {
        if self.remaining == 0 {
            return Ok(Async::Ready(None));
        }
        let r = self.stream.poll();
        if let Ok(Async::Ready(Some(_))) = &r {
            self.remaining = self.remaining - 1;
        }
        r
    }
}

} // verus!
