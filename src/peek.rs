use vstd::prelude::*;
use crate::poll::{Async, Poll, is_item, item_of};
use crate::stream::{Stream, steps};

verus! {

/// A stream whose next item can be looked at without taking it.
pub struct Peekable<S: Stream> {
    stream: S,
    peeked: Option<S::Item>,
    produced: Ghost<Seq<S::Item>>,
}

/// Wraps `stream` so that its next item can be peeked at.
pub fn new<S: Stream>(stream: S) -> (p: Peekable<S>)
    ensures
        p.inner() == stream,
        p.held() is None,
        p.produced().len() == 0,
{
    Peekable { stream, peeked: None, produced: Ghost(Seq::empty()) }
}

impl<S: Stream> Peekable<S> {
    /// The wrapped stream.
    pub closed spec fn inner(&self) -> S {
        self.stream
    }

    /// The item pulled by a peek and not yet handed out.
    pub closed spec fn held(&self) -> Option<S::Item> {
        self.peeked
    }

    /// Looks at the next item without taking it: a held item is shown again;
    /// otherwise the inner stream is advanced once and an item it hands out
    /// is held for the next advance.
    pub fn peek(&mut self) -> (r: Poll<Option<&S::Item>, S::Error>)
        requires
            old(self).inner().inv(),
        ensures
            final(self).inner().inv(),
            final(self).produced() == old(self).produced(),
            match old(self).held() {
                Some(x) => {
                    &&& final(self).inner() == old(self).inner()
                    &&& final(self).held() == Some(x)
                    &&& r == Ok::<Async<Option<&S::Item>>, S::Error>(Async::Ready(Some(&x)))
                },
                None => match r {
                    Ok(Async::Ready(Some(y))) => {
                        &&& steps(old(self).inner(), final(self).inner(), Ok(Async::Ready(Some(*y))))
                        &&& final(self).held() == Some(*y)
                    },
                    Ok(Async::Ready(None)) => {
                        &&& steps(old(self).inner(), final(self).inner(), Ok(Async::Ready(None)))
                        &&& final(self).held() is None
                    },
                    Ok(Async::NotReady) => {
                        &&& steps(old(self).inner(), final(self).inner(), Ok(Async::NotReady))
                        &&& final(self).held() is None
                    },
                    Err(e) => {
                        &&& steps(old(self).inner(), final(self).inner(), Err(e))
                        &&& final(self).held() is None
                    },
                },
            },
    {
        if self.peeked.is_none() {
            match self.stream.poll() {
                Ok(Async::Ready(Some(x))) => {
                    self.peeked = Some(x);
                },
                Ok(Async::Ready(None)) => {
                    return Ok(Async::Ready(None));
                },
                Ok(Async::NotReady) => {
                    return Ok(Async::NotReady);
                },
                Err(e) => {
                    return Err(e);
                },
            }
        }
        match &self.peeked {
            Some(x) => Ok(Async::Ready(Some(x))),
            None => Ok(Async::NotReady),
        }
    }
}

impl<S: Stream> Stream for Peekable<S> {
    type Item = S::Item;
    type Error = S::Error;

    closed spec fn produced(&self) -> Seq<S::Item> {
        self.produced@
    }

    open spec fn inv(&self) -> bool {
        self.inner().inv()
    }

    open spec fn polled(&self, after: Self, r: Poll<Option<S::Item>, S::Error>) -> bool {
        &&& after.held() is None
        &&& match self.held() {
            Some(x) => after.inner() == self.inner() && r == Ok::<Async<Option<S::Item>>, S::Error>(Async::Ready(Some(x))),
            None => steps(self.inner(), after.inner(), r),
        }
    }

    fn poll(&mut self) -> (r: Poll<Option<S::Item>, S::Error>) {
        let r = match self.peeked.take() {
            Some(x) => Ok(Async::Ready(Some(x))),
            None => self.stream.poll(),
        };
        proof {
            if is_item(r) {
                self.produced@ = self.produced@.push(item_of(r));
            }
        }
        r
    }
}

} // verus!
