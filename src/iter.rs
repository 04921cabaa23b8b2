use vstd::prelude::*;
use crate::poll::{Async, Poll};
use crate::stream::Stream;

verus! {

/// A stream that hands out the results of a list, one per advance, and then
/// ends: `Ok(x)` becomes the item `x`, `Err(e)` the error `e`.
pub struct IterStream<T, E> {
    /// The results still to come, the next one last.
    rest: Vec<Result<T, E>>,
    produced: Ghost<Seq<T>>,
}

/// The step that a stream over results makes for its next entry.
pub open spec fn step_of<T, E>(x: Result<T, E>) -> Poll<Option<T>, E> {
    match x {
        Ok(v) => Ok(Async::Ready(Some(v))),
        Err(e) => Err(e),
    }
}

/// Builds a stream that yields the results in `items`, in order, and then ends.
pub fn iter<T, E>(items: Vec<Result<T, E>>) -> (s: IterStream<T, E>)
    ensures
        s.remaining() == items@,
        s.produced() == Seq::<T>::empty(),
        s.inv(),
{
    let mut items = items;
    let ghost all = items@;
    let mut rest: Vec<Result<T, E>> = Vec::new();
    while items.len() > 0
        invariant
            items@.len() + rest@.len() == all.len(),
            items@ == all.subrange(0, items@.len() as int),
            forall|i: int| 0 <= i < rest@.len() ==> rest@[i] == all[all.len() - 1 - i],
        decreases items@.len(),
    {
        let x = items.pop().unwrap();
        rest.push(x);
    }
    let s = IterStream { rest, produced: Ghost(Seq::empty()) };
    assert(s.remaining() =~= all);
    s
}

impl<T, E> IterStream<T, E> {
    /// The results this stream has yet to hand out, the next one first.
    pub closed spec fn remaining(&self) -> Seq<Result<T, E>> {
        Seq::new(self.rest@.len(), |i: int| self.rest@[self.rest@.len() - 1 - i])
    }

    /// How many results are still to come.
    pub fn len(&self) -> (n: usize)
        ensures
            n == self.remaining().len(),
    {
        self.rest.len()
    }
}

impl<T, E> Stream for IterStream<T, E> {
    type Item = T;
    type Error = E;

    closed spec fn produced(&self) -> Seq<T> {
        self.produced@
    }

    open spec fn inv(&self) -> bool {
        true
    }

    open spec fn polled(&self, after: Self, r: Poll<Option<T>, E>) -> bool {
        if self.remaining().len() == 0 {
            &&& r == Ok::<Async<Option<T>>, E>(Async::Ready(None))
            &&& after.remaining() == self.remaining()
        } else {
            &&& r == step_of(self.remaining()[0])
            &&& after.remaining() == self.remaining().drop_first()
        }
    }

    fn poll(&mut self) -> (r: Poll<Option<T>, E>) {
        match self.rest.pop() {
            None => Ok(Async::Ready(None)),
            Some(Ok(v)) => {
                proof {
                    self.produced@ = self.produced@.push(v);
                }
                assert(self.remaining() =~= old(self).remaining().drop_first());
                Ok(Async::Ready(Some(v)))
            },
            Some(Err(e)) => {
                assert(self.remaining() =~= old(self).remaining().drop_first());
                Err(e)
            },
        }
    }
}

} // verus!
