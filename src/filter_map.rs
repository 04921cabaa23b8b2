use vstd::prelude::*;
use crate::poll::{Async, Poll};
use crate::stream::{Stream, steps};

verus! {

/// A stream that hands out `y` for each item `x` of its inner stream for
/// which `f(x)` is `Some(y)`, dropping the items for which it is `None`;
/// waits, errors and the end pass through.
///
/// One advance drops at most `u64::MAX` items before it reports that the
/// caller must wait.
#[verifier::reject_recursive_types(U)]
pub struct FilterMap<S: Stream, F, U> where F: Fn(S::Item) -> Option<U> {
    stream: S,
    f: F,
    produced: Ghost<Seq<U>>,
}

/// What filter-mapping does over at most `fuel` items, from inner stream `s`
/// to `s2`, returning `r`: it drops items that `f` maps to `None` until it
/// can hand one out or pass a step through.
pub open spec fn filter_map_run<S: Stream, F, U>(f: F, s: S, fuel: nat, s2: S, r: Poll<Option<U>, S::Error>) -> bool where
    F: Fn(S::Item) -> Option<U>,
    decreases fuel,
{
    if fuel == 0 {
        s2 == s && r == Ok::<Async<Option<U>>, S::Error>(Async::NotReady)
    } else {
        exists|s1: S, rs: Poll<Option<S::Item>, S::Error>| #[trigger] steps(s, s1, rs) && match rs {
            Ok(Async::Ready(Some(x))) => exists|o: Option<U>| #[trigger] f.ensures((x,), o) && match o {
                Some(y) => s2 == s1 && r == Ok::<Async<Option<U>>, S::Error>(Async::Ready(Some(y))),
                None => filter_map_run(f, s1, (fuel - 1) as nat, s2, r),
            },
            Ok(Async::Ready(None)) => s2 == s1 && r == Ok::<Async<Option<U>>, S::Error>(Async::Ready(None)),
            Ok(Async::NotReady) => s2 == s1 && r == Ok::<Async<Option<U>>, S::Error>(Async::NotReady),
            Err(e) => s2 == s1 && r == Err::<Async<Option<U>>, S::Error>(e),
        }
    }
}

/// Whether `f` may be called on every item of `s`.
pub open spec fn maps_every_item<S: Stream, F, U>(f: F, s: S) -> bool where F: Fn(S::Item) -> Option<U> {
    forall|x: S::Item| #[trigger] f.requires((x,))
}

/// Maps the items of `stream` through `f`, keeping the `Some` results.
pub fn new<S: Stream, F, U>(stream: S, f: F) -> (fm: FilterMap<S, F, U>) where F: Fn(S::Item) -> Option<U>
    requires
        stream.inv(),
        maps_every_item(f, stream),
    ensures
        fm.inner() == stream,
        fm.function() == f,
        fm.produced().len() == 0,
        fm.inv(),
{
    FilterMap { stream, f, produced: Ghost(Seq::empty()) }
}

impl<S: Stream, F, U> FilterMap<S, F, U> where F: Fn(S::Item) -> Option<U> {
    /// The wrapped stream.
    pub closed spec fn inner(&self) -> S {
        self.stream
    }

    /// The function applied to each item.
    pub closed spec fn function(&self) -> F {
        self.f
    }
}

impl<S: Stream, F, U> Stream for FilterMap<S, F, U> where F: Fn(S::Item) -> Option<U> {
    type Item = U;
    type Error = S::Error;

    closed spec fn produced(&self) -> Seq<U> {
        self.produced@
    }

    open spec fn inv(&self) -> bool {
        &&& self.inner().inv()
        &&& maps_every_item(self.function(), self.inner())
    }

    open spec fn polled(&self, after: Self, r: Poll<Option<U>, S::Error>) -> bool {
        &&& after.function() == self.function()
        &&& filter_map_run(self.function(), self.inner(), u64::MAX as nat, after.inner(), r)
    }

    fn poll(&mut self) -> (r: Poll<Option<U>, S::Error>) {
        let ghost f0 = self.f;
        let ghost s0 = self.stream;
        let mut fuel: u64 = u64::MAX;
        loop
            invariant
                self.f == f0,
                f0 == old(self).f,
                s0 == old(self).stream,
                self.produced == old(self).produced,
                self.stream.inv(),
                maps_every_item(f0, self.stream),
                forall|s2: S, r2: Poll<Option<U>, S::Error>|
                    #[trigger] filter_map_run(f0, self.stream, fuel as nat, s2, r2)
                        ==> filter_map_run(f0, s0, u64::MAX as nat, s2, r2),
            decreases fuel,
        {
            if fuel == 0 {
                assert(filter_map_run(f0, self.stream, fuel as nat, self.stream, Ok::<Async<Option<U>>, S::Error>(Async::NotReady)));
                return Ok(Async::NotReady);
            }
            let ghost fuel0 = fuel;
            fuel = fuel - 1;
            let ghost cur_s = self.stream;
            let rs = self.stream.poll();
            assert(steps(cur_s, self.stream, rs));
            match rs {
                Ok(Async::Ready(Some(x))) => {
                    let ghost xg = x;
                    assert(f0.requires((xg,)));
                    let o = (self.f)(x);
                    assert(f0.ensures((xg,), o));
                    match o {
                        Some(y) => {
                            proof {
                                self.produced@ = self.produced@.push(y);
                            }
                            assert(filter_map_run(f0, cur_s, fuel0 as nat, self.stream, Ok::<Async<Option<U>>, S::Error>(Async::Ready(Some(y)))));
                            return Ok(Async::Ready(Some(y)));
                        },
                        None => {
                            assert forall|s2: S, r2: Poll<Option<U>, S::Error>|
                                #[trigger] filter_map_run(f0, self.stream, fuel as nat, s2, r2)
                                    implies filter_map_run(f0, s0, u64::MAX as nat, s2, r2) by {
                                assert(filter_map_run(f0, cur_s, fuel0 as nat, s2, r2));
                            };
                        },
                    }
                },
                Ok(Async::Ready(None)) => {
                    assert(filter_map_run(f0, cur_s, fuel0 as nat, self.stream, Ok::<Async<Option<U>>, S::Error>(Async::Ready(None))));
                    return Ok(Async::Ready(None));
                },
                Ok(Async::NotReady) => {
                    assert(filter_map_run(f0, cur_s, fuel0 as nat, self.stream, Ok::<Async<Option<U>>, S::Error>(Async::NotReady)));
                    return Ok(Async::NotReady);
                },
                Err(e) => {
                    assert(filter_map_run(f0, cur_s, fuel0 as nat, self.stream, Err::<Async<Option<U>>, S::Error>(e)));
                    return Err(e);
                },
            }
        }
    }
}

} // verus!
