use vstd::prelude::*;
use crate::future::Future;
use crate::poll::{Async, Poll};
use crate::stream::Stream;

verus! {

/// A future that resolves to the next step of a stream together with the
/// rest of the stream: `(Some(item), rest)` or `(None, rest)` at the end, or
/// fails with `(error, rest)`. Once it has resolved it holds no stream and
/// makes the caller wait.
pub struct StreamFuture<S: Stream> {
    stream: Option<S>,
}

/// Turns `stream` into a future of its next item and the rest.
pub fn new<S: Stream>(stream: S) -> (f: StreamFuture<S>)
    ensures
        f.held() == Some(stream),
{
    StreamFuture { stream: Some(stream) }
}

impl<S: Stream> StreamFuture<S> {
    /// The stream, until the future has resolved.
    pub closed spec fn held(&self) -> Option<S> {
        self.stream
    }
}

impl<S: Stream> Future for StreamFuture<S> {
    type Item = (Option<S::Item>, S);
    type Error = (S::Error, S);

    open spec fn inv(&self) -> bool {
        self.held() matches Some(s) ==> s.inv()
    }

    open spec fn polled(&self, after: Self, r: Poll<(Option<S::Item>, S), (S::Error, S)>) -> bool {
        match self.held() {
            None => after == *self && r == Ok::<Async<(Option<S::Item>, S)>, (S::Error, S)>(Async::NotReady),
            Some(s) => match r {
                Ok(Async::Ready((x, rest))) => after.held() is None && s.polled(rest, Ok(Async::Ready(x))),
                Err((e, rest)) => after.held() is None && s.polled(rest, Err(e)),
                Ok(Async::NotReady) => after.held() matches Some(s2) && s.polled(s2, Ok(Async::NotReady)),
            },
        }
    }

    fn poll(&mut self) -> (r: Poll<(Option<S::Item>, S), (S::Error, S)>) {
        match self.stream.take() {
            None => Ok(Async::NotReady),
            Some(s) => {
                let mut s = s;
                match s.poll() {
                    Ok(Async::Ready(x)) => Ok(Async::Ready((x, s))),
                    Ok(Async::NotReady) => {
                        self.stream = Some(s);
                        Ok(Async::NotReady)
                    },
                    Err(e) => Err((e, s)),
                }
            },
        }
    }
}

} // verus!
