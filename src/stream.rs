use vstd::prelude::*;
use crate::poll::{Async, Poll, is_item, item_of};

verus! {

/// How a stream's history moves on one advance: an item is appended, any
/// other outcome leaves the history as it was.
pub open spec fn advanced<T, E>(before: Seq<T>, after: Seq<T>, r: Poll<Option<T>, E>) -> bool {
    if is_item(r) {
        after == before.push(item_of(r))
    } else {
        after == before
    }
}

/// Appending to a history and then dropping its first `n` items is the same
/// as dropping them first.
pub proof fn lemma_skip_push<T>(s: Seq<T>, n: int, x: T)
    requires
        0 <= n <= s.len(),
    ensures
        s.push(x).skip(n) == s.skip(n).push(x),
{
    assert(s.push(x).skip(n) =~= s.skip(n).push(x));
}

/// One advance of `s`, as its own contract describes it, together with what
/// it does to the history of items handed out.
pub open spec fn steps<S: Stream>(s: S, after: S, r: Poll<Option<S::Item>, S::Error>) -> bool {
    &&& s.polled(after, r)
    &&& advanced(s.produced(), after.produced(), r)
}

/// A sequence of values, not all of which have been produced yet.
///
/// `poll` is the one way to pull a value out: it never blocks. `NotReady`
/// means the current task will be notified when progress may be possible,
/// `Ready(Some(x))` is the next item, `Ready(None)` ends the stream, and an
/// error reports a failure. Once a stream has ended or failed, advancing it
/// again has no meaning unless it is wrapped in `Fuse`.
pub trait Stream: Sized {
    /// The items this stream yields.
    type Item;
    /// The error this stream may report.
    type Error;

    /// Every item this stream has handed out so far, oldest first.
    spec fn produced(&self) -> Seq<Self::Item>;

    /// Whether the stream's own state is consistent.
    spec fn inv(&self) -> bool;

    /// What one advance of this stream does: from state `self` it may
    /// return `r` and move to state `after`.
    spec fn polled(&self, after: Self, r: Poll<Option<Self::Item>, Self::Error>) -> bool;

    /// Attempts to pull the next item.
    fn poll(&mut self) -> (r: Poll<Option<Self::Item>, Self::Error>)
        requires
            old(self).inv(),
        ensures
            final(self).inv(),
            old(self).polled(*final(self), r),
            advanced(old(self).produced(), final(self).produced(), r),
    ;
}

/// A boxed stream advances as the stream inside it.
impl<S: Stream> Stream for Box<S> {
    type Item = S::Item;
    type Error = S::Error;

    open spec fn produced(&self) -> Seq<S::Item> {
        (**self).produced()
    }

    open spec fn inv(&self) -> bool {
        (**self).inv()
    }

    open spec fn polled(&self, after: Self, r: Poll<Option<S::Item>, S::Error>) -> bool {
        (**self).polled(*after, r)
    }

    fn poll(&mut self) -> (r: Poll<Option<S::Item>, S::Error>) {
        (**self).poll()
    }
}

} // verus!
