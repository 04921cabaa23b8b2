use vstd::prelude::*;
use crate::future::Future;
use crate::poll::{Async, Poll};
use crate::stream::{Stream, steps};

verus! {

/// Where a fold stands between advances.
pub enum FoldState<T, Fut> {
    /// Waiting for the next item, with the accumulated value.
    Ready(T),
    /// Running the accumulator's step for the last item.
    Processing(Fut),
    /// Resolved or failed; nothing more is done.
    Finished,
}

/// A future that drives a stream to its end, feeding each item with the
/// accumulated value to `f`, whose step must resolve before the next item is
/// pulled; it resolves to the final value, or to the first error.
///
/// One advance handles at most `u64::MAX` events before it reports that the
/// caller must wait.
#[verifier::reject_recursive_types(Fut)]
#[verifier::reject_recursive_types(T)]
pub struct Fold<S: Stream, F, Fut, T> where
    F: Fn(T, S::Item) -> Fut,
    Fut: Future<Item = T, Error = S::Error>,
 {
    stream: S,
    f: F,
    state: FoldState<T, Fut>,
    /// The items handed to `f` so far.
    fed: Ghost<Seq<S::Item>>,
    /// How many items the stream had handed out before the fold began.
    base: Ghost<nat>,
}

/// What the fold does over at most `fuel` events, from stream `s`, state
/// `st` and items fed `fed`, to `(s2, st2, fed2)`, returning `r`.
pub open spec fn fold_run<S: Stream, F, Fut, T>(
    f: F,
    s: S,
    st: FoldState<T, Fut>,
    fed: Seq<S::Item>,
    fuel: nat,
    s2: S,
    st2: FoldState<T, Fut>,
    fed2: Seq<S::Item>,
    r: Poll<T, S::Error>,
) -> bool where
    F: Fn(T, S::Item) -> Fut,
    Fut: Future<Item = T, Error = S::Error>,
    decreases fuel,
{
    let unchanged = s2 == s && st2 == st && fed2 == fed;
    if fuel == 0 {
        unchanged && r == Ok::<Async<T>, S::Error>(Async::NotReady)
    } else {
        match st {
            FoldState::Finished => unchanged && r == Ok::<Async<T>, S::Error>(Async::NotReady),
            FoldState::Ready(acc) => exists|s1: S, rs: Poll<Option<S::Item>, S::Error>| #[trigger] steps(s, s1, rs) && match rs {
                Ok(Async::Ready(Some(x))) => exists|fut: Fut| #[trigger] f.ensures((acc, x), fut)
                    && fold_run(f, s1, FoldState::Processing(fut), fed.push(x), (fuel - 1) as nat, s2, st2, fed2, r),
                Ok(Async::Ready(None)) => s2 == s1 && st2 is Finished && fed2 == fed && r == Ok::<Async<T>, S::Error>(Async::Ready(acc)),
                Ok(Async::NotReady) => s2 == s1 && st2 == st && fed2 == fed && r == Ok::<Async<T>, S::Error>(Async::NotReady),
                Err(e) => s2 == s1 && st2 is Finished && fed2 == fed && r == Err::<Async<T>, S::Error>(e),
            },
            FoldState::Processing(fut) => exists|fut1: Fut, rf: Poll<T, S::Error>| #[trigger] fut.polled(fut1, rf) && match rf {
                Ok(Async::Ready(acc)) => fold_run(f, s, FoldState::Ready(acc), fed, (fuel - 1) as nat, s2, st2, fed2, r),
                Ok(Async::NotReady) => s2 == s && st2 == FoldState::<T, Fut>::Processing(fut1) && fed2 == fed
                    && r == Ok::<Async<T>, S::Error>(Async::NotReady),
                Err(e) => s2 == s && st2 is Finished && fed2 == fed && r == Err::<Async<T>, S::Error>(e),
            },
        }
    }
}

/// A run that ends in an error or a value leaves the fold finished.
proof fn lemma_run_ends_finished<S: Stream, F, Fut, T>(
    f: F,
    s: S,
    st: FoldState<T, Fut>,
    fed: Seq<S::Item>,
    fuel: nat,
    s2: S,
    st2: FoldState<T, Fut>,
    fed2: Seq<S::Item>,
    r: Poll<T, S::Error>,
) where
    F: Fn(T, S::Item) -> Fut,
    Fut: Future<Item = T, Error = S::Error>,
    requires
        fold_run(f, s, st, fed, fuel, s2, st2, fed2, r),
        !(r matches Ok(Async::NotReady)),
    ensures
        st2 is Finished,
    decreases fuel,
{
    if fuel > 0 {
        match st {
            FoldState::Finished => {},
            FoldState::Ready(acc) => {
                let (s1, rs) = choose|s1: S, rs: Poll<Option<S::Item>, S::Error>| #[trigger] steps(s, s1, rs) && match rs {
                    Ok(Async::Ready(Some(x))) => exists|fut: Fut| #[trigger] f.ensures((acc, x), fut)
                        && fold_run(f, s1, FoldState::Processing(fut), fed.push(x), (fuel - 1) as nat, s2, st2, fed2, r),
                    Ok(Async::Ready(None)) => s2 == s1 && st2 is Finished && fed2 == fed && r == Ok::<Async<T>, S::Error>(Async::Ready(acc)),
                    Ok(Async::NotReady) => s2 == s1 && st2 == st && fed2 == fed && r == Ok::<Async<T>, S::Error>(Async::NotReady),
                    Err(e) => s2 == s1 && st2 is Finished && fed2 == fed && r == Err::<Async<T>, S::Error>(e),
                };
                if let Ok(Async::Ready(Some(x))) = rs {
                    let fut = choose|fut: Fut| #[trigger] f.ensures((acc, x), fut)
                        && fold_run(f, s1, FoldState::Processing(fut), fed.push(x), (fuel - 1) as nat, s2, st2, fed2, r);
                    lemma_run_ends_finished(f, s1, FoldState::Processing(fut), fed.push(x), (fuel - 1) as nat, s2, st2, fed2, r);
                }
            },
            FoldState::Processing(fut) => {
                let (fut1, rf) = choose|fut1: Fut, rf: Poll<T, S::Error>| #[trigger] fut.polled(fut1, rf) && match rf {
                    Ok(Async::Ready(acc)) => fold_run(f, s, FoldState::Ready(acc), fed, (fuel - 1) as nat, s2, st2, fed2, r),
                    Ok(Async::NotReady) => s2 == s && st2 == FoldState::<T, Fut>::Processing(fut1) && fed2 == fed
                        && r == Ok::<Async<T>, S::Error>(Async::NotReady),
                    Err(e) => s2 == s && st2 is Finished && fed2 == fed && r == Err::<Async<T>, S::Error>(e),
                };
                if let Ok(Async::Ready(acc)) = rf {
                    lemma_run_ends_finished(f, s, FoldState::Ready(acc), fed, (fuel - 1) as nat, s2, st2, fed2, r);
                }
            },
        }
    }
}

/// Once a fold has resolved, to a value or to an error, advancing it again
/// pulls nothing from the stream, hands nothing to the accumulator and makes
/// the caller wait: in particular, after an error no later item reaches the
/// accumulator.
pub proof fn lemma_fold_stops_when_resolved<S: Stream, F, Fut, T>(
    fo: Fold<S, F, Fut, T>,
    after: Fold<S, F, Fut, T>,
    r: Poll<T, S::Error>,
    later: Fold<S, F, Fut, T>,
    r2: Poll<T, S::Error>,
) where
    F: Fn(T, S::Item) -> Fut,
    Fut: Future<Item = T, Error = S::Error>,
    requires
        fo.polled(after, r),
        !(r matches Ok(Async::NotReady)),
        after.polled(later, r2),
    ensures
        after.state() is Finished,
        later.source() == after.source(),
        later.fed() == after.fed(),
        r2 == Ok::<Async<T>, S::Error>(Async::NotReady),
{
    lemma_run_ends_finished(
        fo.accumulator(), fo.source(), fo.state(), fo.fed(), u64::MAX as nat,
        after.source(), after.state(), after.fed(), r,
    );
}

/// Folds `stream` into one value, starting from `init` and combining with `f`.
pub fn new<S: Stream, F, Fut, T>(stream: S, f: F, init: T) -> (fo: Fold<S, F, Fut, T>) where
    F: Fn(T, S::Item) -> Fut,
    Fut: Future<Item = T, Error = S::Error>,
    requires
        stream.inv(),
        forall|acc: T, x: S::Item| #[trigger] f.requires((acc, x)),
        forall|acc: T, x: S::Item, fut: Fut| #[trigger] f.ensures((acc, x), fut) ==> fut.inv(),
    ensures
        fo.source() == stream,
        fo.accumulator() == f,
        fo.state() == FoldState::<T, Fut>::Ready(init),
        fo.fed().len() == 0,
        fo.source_base() == stream.produced().len(),
        fo.inv(),
{
    let fo = Fold { stream, f, state: FoldState::Ready(init), fed: Ghost(Seq::empty()), base: Ghost(stream.produced().len()) };
    assert(fo.fed() =~= fo.source().produced().skip(fo.source_base() as int));
    fo
}

impl<S: Stream, F, Fut, T> Fold<S, F, Fut, T> where
    F: Fn(T, S::Item) -> Fut,
    Fut: Future<Item = T, Error = S::Error>,
 {
    /// The stream being folded.
    pub closed spec fn source(&self) -> S {
        self.stream
    }

    /// The accumulator.
    pub closed spec fn accumulator(&self) -> F {
        self.f
    }

    /// Where the fold stands.
    pub closed spec fn state(&self) -> FoldState<T, Fut> {
        self.state
    }

    /// The items handed to the accumulator so far, in order.
    pub closed spec fn fed(&self) -> Seq<S::Item> {
        self.fed@
    }

    /// How many items the stream had handed out before the fold began.
    pub closed spec fn source_base(&self) -> nat {
        self.base@
    }

}

impl<S: Stream, F, Fut, T> Future for Fold<S, F, Fut, T> where
    F: Fn(T, S::Item) -> Fut,
    Fut: Future<Item = T, Error = S::Error>,
 {
    type Item = T;
    type Error = S::Error;

    open spec fn inv(&self) -> bool {
        &&& self.source().inv()
        &&& forall|acc: T, x: S::Item| #[trigger] self.accumulator().requires((acc, x))
        &&& forall|acc: T, x: S::Item, fut: Fut| #[trigger] self.accumulator().ensures((acc, x), fut) ==> fut.inv()
        &&& self.state() matches FoldState::Processing(fut) ==> fut.inv()
        &&& self.source_base() <= self.source().produced().len()
        &&& self.fed() == self.source().produced().skip(self.source_base() as int)
    }

    open spec fn polled(&self, after: Self, r: Poll<T, S::Error>) -> bool {
        &&& after.accumulator() == self.accumulator()
        &&& after.source_base() == self.source_base()
        &&& fold_run(
            self.accumulator(),
            self.source(),
            self.state(),
            self.fed(),
            u64::MAX as nat,
            after.source(),
            after.state(),
            after.fed(),
            r,
        )
    }

    fn poll(&mut self) -> (r: Poll<T, S::Error>) {
        let ghost f0 = self.f;
        let ghost s0 = self.stream;
        let ghost st0 = self.state;
        let ghost fed0 = self.fed@;
        let mut fuel: u64 = u64::MAX;
        assert forall|acc: T, x: S::Item| #[trigger] f0.requires((acc, x)) by {
            assert(old(self).accumulator().requires((acc, x)));
        };
        assert forall|acc: T, x: S::Item, fut: Fut| #[trigger] f0.ensures((acc, x), fut) implies fut.inv() by {
            assert(old(self).accumulator().ensures((acc, x), fut));
        };
        loop
            invariant
                self.f == f0,
                f0 == old(self).f,
                self.base == old(self).base,
                self.stream.inv(),
                forall|acc: T, x: S::Item| #[trigger] f0.requires((acc, x)),
                forall|acc: T, x: S::Item, fut: Fut| #[trigger] f0.ensures((acc, x), fut) ==> fut.inv(),
                self.state matches FoldState::Processing(fut) ==> fut.inv(),
                self.base@ <= self.stream.produced().len(),
                self.fed@ == self.stream.produced().skip(self.base@ as int),
                s0 == old(self).stream,
                st0 == old(self).state,
                fed0 == old(self).fed@,
                forall|s2: S, st2: FoldState<T, Fut>, fed2: Seq<S::Item>, r2: Poll<T, S::Error>|
                    #[trigger] fold_run(f0, self.stream, self.state, self.fed@, fuel as nat, s2, st2, fed2, r2)
                        ==> fold_run(f0, s0, st0, fed0, u64::MAX as nat, s2, st2, fed2, r2),
            decreases fuel,
        {
            if fuel == 0 {
                assert(fold_run(f0, self.stream, self.state, self.fed@, fuel as nat, self.stream, self.state, self.fed@, Ok(Async::NotReady)));
                return Ok(Async::NotReady);
            }
            let ghost fuel0 = fuel;
            fuel = fuel - 1;
            let ghost cur_s = self.stream;
            let ghost cur_st = self.state;
            let ghost cur_fed = self.fed@;
            let mut st = FoldState::Finished;
            std::mem::swap(&mut self.state, &mut st);
            match st {
                FoldState::Finished => {
                    assert(fold_run(f0, cur_s, cur_st, cur_fed, fuel0 as nat, self.stream, cur_st, self.fed@, Ok(Async::NotReady)));
                    return Ok(Async::NotReady);
                },
                FoldState::Ready(acc) => {
                    let rs = self.stream.poll();
                    assert(steps(cur_s, self.stream, rs));
                    match rs {
                        Ok(Async::Ready(Some(x))) => {
                            let fut = (self.f)(acc, x);
                            self.state = FoldState::Processing(fut);
                            proof {
                                crate::stream::lemma_skip_push(cur_s.produced(), self.base@ as int, x);
                                self.fed@ = self.fed@.push(x);
                            }
                            assert(f0.ensures((acc, x), fut));
                            assert forall|s2: S, st2: FoldState<T, Fut>, fed2: Seq<S::Item>, r2: Poll<T, S::Error>|
                                #[trigger] fold_run(f0, self.stream, self.state, self.fed@, fuel as nat, s2, st2, fed2, r2)
                                    implies fold_run(f0, s0, st0, fed0, u64::MAX as nat, s2, st2, fed2, r2) by {
                                assert(fold_run(f0, cur_s, cur_st, cur_fed, fuel0 as nat, s2, st2, fed2, r2));
                            };
                        },
                        Ok(Async::Ready(None)) => {
                            assert(fold_run(f0, cur_s, cur_st, cur_fed, fuel0 as nat, self.stream, self.state, self.fed@, Ok(Async::Ready(acc))));
                            return Ok(Async::Ready(acc));
                        },
                        Ok(Async::NotReady) => {
                            self.state = FoldState::Ready(acc);
                            assert(fold_run(f0, cur_s, cur_st, cur_fed, fuel0 as nat, self.stream, self.state, self.fed@, Ok(Async::NotReady)));
                            return Ok(Async::NotReady);
                        },
                        Err(e) => {
                            assert(fold_run(f0, cur_s, cur_st, cur_fed, fuel0 as nat, self.stream, self.state, self.fed@, Err(e)));
                            return Err(e);
                        },
                    }
                },
                FoldState::Processing(fut) => {
                    let mut fut = fut;
                    let ghost fut_before = fut;
                    let rf = fut.poll();
                    assert(fut_before.polled(fut, rf));
                    match rf {
                        Ok(Async::Ready(acc)) => {
                            self.state = FoldState::Ready(acc);
                            assert forall|s2: S, st2: FoldState<T, Fut>, fed2: Seq<S::Item>, r2: Poll<T, S::Error>|
                                #[trigger] fold_run(f0, self.stream, self.state, self.fed@, fuel as nat, s2, st2, fed2, r2)
                                    implies fold_run(f0, s0, st0, fed0, u64::MAX as nat, s2, st2, fed2, r2) by {
                                assert(fold_run(f0, cur_s, cur_st, cur_fed, fuel0 as nat, s2, st2, fed2, r2));
                            };
                        },
                        Ok(Async::NotReady) => {
                            self.state = FoldState::Processing(fut);
                            assert(fold_run(f0, cur_s, cur_st, cur_fed, fuel0 as nat, self.stream, self.state, self.fed@, Ok(Async::NotReady)));
                            return Ok(Async::NotReady);
                        },
                        Err(e) => {
                            assert(fold_run(f0, cur_s, cur_st, cur_fed, fuel0 as nat, self.stream, self.state, self.fed@, Err(e)));
                            return Err(e);
                        },
                    }
                },
            }
        }
    }
}

} // verus!
