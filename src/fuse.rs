use vstd::prelude::*;
use crate::poll::{Async, Poll, is_terminal};
use crate::stream::{Stream, steps};

verus! {

/// A stream that, once its inner stream has ended or failed, keeps reporting
/// the end without advancing the inner stream again.
pub struct Fuse<S> {
    stream: S,
    done: bool,
}

/// Wraps `stream` so that advancing it after its end is well defined.
pub fn new<S: Stream>(stream: S) -> (f: Fuse<S>)
    ensures
        f.inner() == stream,
        !f.is_done(),
{
    Fuse { stream, done: false }
}

impl<S: Stream> Fuse<S> {
    /// The wrapped stream.
    pub closed spec fn inner(&self) -> S {
        self.stream
    }

    /// Whether the inner stream has ended or failed.
    pub closed spec fn is_done(&self) -> bool {
        self.done
    }

    /// Whether the inner stream has ended or failed.
    pub fn is_terminated(&self) -> (r: bool)
        ensures
            r == self.is_done(),
    {
        self.done
    }
}

impl<S: Stream> Stream for Fuse<S> {
    type Item = S::Item;
    type Error = S::Error;

    open spec fn produced(&self) -> Seq<S::Item> {
        self.inner().produced()
    }

    open spec fn inv(&self) -> bool {
        self.inner().inv()
    }

    open spec fn polled(&self, after: Self, r: Poll<Option<S::Item>, S::Error>) -> bool {
        if self.is_done() {
            &&& r == Ok::<Async<Option<S::Item>>, S::Error>(Async::Ready(None))
            &&& after == *self
        } else {
            &&& steps(self.inner(), after.inner(), r)
            &&& after.is_done() == is_terminal(r)
        }
    }

    fn poll(&mut self) -> (r: Poll<Option<S::Item>, S::Error>) {
        if self.done {
            return Ok(Async::Ready(None));
        }
        let r = self.stream.poll();
        match &r {
            Ok(Async::Ready(None)) | Err(_) => {
                self.done = true;
            },
            _ => {},
        }
        r
    }
}

/// Once a fused stream has reported its end or an error, every later advance
/// reports the end and leaves the inner stream exactly as it was.
///
/// `states[i]` is the stream before advance `i`, which returned `results[i]`.
pub proof fn lemma_fuse_stays_ended<S: Stream>(
    states: Seq<Fuse<S>>,
    results: Seq<Poll<Option<S::Item>, S::Error>>,
    i: int,
    j: int,
)
    requires
        states.len() == results.len() + 1,
        forall|k: int| 0 <= k < results.len() ==> #[trigger] states[k].polled(states[k + 1], results[k]),
        0 <= i < j < results.len(),
        is_terminal(results[i]),
    ensures
        results[j] == Ok::<Async<Option<S::Item>>, S::Error>(Async::Ready(None)),
        states[j + 1].inner() == states[i + 1].inner(),
    decreases j - i,
{
    assert(states[i].polled(states[i + 1], results[i]));
    assert(states[j].polled(states[j + 1], results[j]));
    if j == i + 1 {
    } else {
        lemma_fuse_stays_ended(states, results, i, j - 1);
        assert(states[j - 1].polled(states[j], results[j - 1]));
        assert(states[j].is_done()) by {
            if !states[j - 1].is_done() {
                assert(is_terminal(results[j - 1]));
            }
        }
    }
}

} // verus!
