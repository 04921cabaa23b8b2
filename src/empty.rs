use vstd::prelude::*;
use crate::poll::{Async, Poll};
use crate::stream::Stream;

verus! {

/// A stream that has no items: every advance reports the end.
pub struct Empty<T, E> {
    marker: Ghost<(T, E)>,
}

/// A stream that ends at once.
pub fn empty<T, E>() -> (s: Empty<T, E>)
    ensures
        s.produced().len() == 0,
{
    Empty { marker: Ghost(arbitrary()) }
}

impl<T, E> Stream for Empty<T, E> {
    type Item = T;
    type Error = E;

    open spec fn produced(&self) -> Seq<T> {
        Seq::empty()
    }

    open spec fn inv(&self) -> bool {
        true
    }

    open spec fn polled(&self, after: Self, r: Poll<Option<T>, E>) -> bool {
        r == Ok::<Async<Option<T>>, E>(Async::Ready(None))
    }

    fn poll(&mut self) -> (r: Poll<Option<T>, E>) {
        Ok(Async::Ready(None))
    }
}

} // verus!
