use vstd::prelude::*;
use crate::poll::{Async, Poll};
use crate::stream::{Stream, steps};

verus! {

/// A stream that hands out the items of its inner stream for which `f`
/// holds, dropping the others; waits, errors and the end pass through.
///
/// One advance drops at most `u64::MAX` items before it reports that the
/// caller must wait.
pub struct Filter<S: Stream, F> where F: Fn(&S::Item) -> bool {
    stream: S,
    f: F,
    produced: Ghost<Seq<S::Item>>,
}

/// What filtering does over at most `fuel` items, from inner stream `s` to
/// `s2`, returning `r`: it drops items that `f` rejects until it can pass one
/// step through.
pub open spec fn filter_run<S: Stream, F>(f: F, s: S, fuel: nat, s2: S, r: Poll<Option<S::Item>, S::Error>) -> bool where
    F: Fn(&S::Item) -> bool,
    decreases fuel,
{
    if fuel == 0 {
        s2 == s && r == Ok::<Async<Option<S::Item>>, S::Error>(Async::NotReady)
    } else {
        exists|s1: S, rs: Poll<Option<S::Item>, S::Error>| #[trigger] steps(s, s1, rs) && match rs {
            Ok(Async::Ready(Some(x))) => {
                ||| f.ensures((&x,), true) && s2 == s1 && r == rs
                ||| f.ensures((&x,), false) && filter_run(f, s1, (fuel - 1) as nat, s2, r)
            },
            _ => s2 == s1 && r == rs,
        }
    }
}

/// Whether `f` may be called on every item of `s`.
pub open spec fn judges_every_item<S: Stream, F>(f: F, s: S) -> bool where F: Fn(&S::Item) -> bool {
    forall|x: &S::Item| #[trigger] f.requires((x,))
}

/// Keeps the items of `stream` for which `f` holds.
pub fn new<S: Stream, F>(stream: S, f: F) -> (fl: Filter<S, F>) where F: Fn(&S::Item) -> bool
    requires
        stream.inv(),
        judges_every_item(f, stream),
    ensures
        fl.inner() == stream,
        fl.predicate() == f,
        fl.produced().len() == 0,
        fl.inv(),
{
    Filter { stream, f, produced: Ghost(Seq::empty()) }
}

impl<S: Stream, F> Filter<S, F> where F: Fn(&S::Item) -> bool {
    /// The wrapped stream.
    pub closed spec fn inner(&self) -> S {
        self.stream
    }

    /// The predicate an item must meet to be handed out.
    pub closed spec fn predicate(&self) -> F {
        self.f
    }
}

impl<S: Stream, F> Stream for Filter<S, F> where F: Fn(&S::Item) -> bool {
    type Item = S::Item;
    type Error = S::Error;

    closed spec fn produced(&self) -> Seq<S::Item> {
        self.produced@
    }

    open spec fn inv(&self) -> bool {
        &&& self.inner().inv()
        &&& judges_every_item(self.predicate(), self.inner())
    }

    open spec fn polled(&self, after: Self, r: Poll<Option<S::Item>, S::Error>) -> bool {
        &&& after.predicate() == self.predicate()
        &&& filter_run(self.predicate(), self.inner(), u64::MAX as nat, after.inner(), r)
    }

    fn poll(&mut self) -> (r: Poll<Option<S::Item>, S::Error>) {
        let ghost f0 = self.f;
        let ghost s0 = self.stream;
        let mut fuel: u64 = u64::MAX;
        loop
            invariant
                self.f == f0,
                f0 == old(self).f,
                s0 == old(self).stream,
                self.produced == old(self).produced,
                self.stream.inv(),
                judges_every_item(f0, self.stream),
                forall|s2: S, r2: Poll<Option<S::Item>, S::Error>|
                    #[trigger] filter_run(f0, self.stream, fuel as nat, s2, r2)
                        ==> filter_run(f0, s0, u64::MAX as nat, s2, r2),
            decreases fuel,
        {
            if fuel == 0 {
                assert(filter_run(f0, self.stream, fuel as nat, self.stream, Ok(Async::NotReady)));
                return Ok(Async::NotReady);
            }
            let ghost fuel0 = fuel;
            fuel = fuel - 1;
            let ghost cur_s = self.stream;
            let rs = self.stream.poll();
            assert(steps(cur_s, self.stream, rs));
            match rs {
                Ok(Async::Ready(Some(x))) => {
                    let ghost xg = x;
                    assert(f0.requires((&xg,)));
                    let keep = (self.f)(&x);
                    if keep {
                        proof {
                            self.produced@ = self.produced@.push(xg);
                        }
                        assert(filter_run(f0, cur_s, fuel0 as nat, self.stream, Ok(Async::Ready(Some(xg)))));
                        return Ok(Async::Ready(Some(x)));
                    }
                    assert forall|s2: S, r2: Poll<Option<S::Item>, S::Error>|
                        #[trigger] filter_run(f0, self.stream, fuel as nat, s2, r2)
                            implies filter_run(f0, s0, u64::MAX as nat, s2, r2) by {
                        assert(filter_run(f0, cur_s, fuel0 as nat, s2, r2));
                    };
                },
                Ok(Async::Ready(None)) => {
                    assert(filter_run(f0, cur_s, fuel0 as nat, self.stream, Ok(Async::Ready(None))));
                    return Ok(Async::Ready(None));
                },
                Ok(Async::NotReady) => {
                    assert(filter_run(f0, cur_s, fuel0 as nat, self.stream, Ok(Async::NotReady)));
                    return Ok(Async::NotReady);
                },
                Err(e) => {
                    assert(filter_run(f0, cur_s, fuel0 as nat, self.stream, Err(e)));
                    return Err(e);
                },
            }
        }
    }
}

} // verus!
