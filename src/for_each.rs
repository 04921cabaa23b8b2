use vstd::prelude::*;
use crate::future::Future;
use crate::poll::{Async, Poll};
use crate::stream::{Stream, steps};

verus! {

/// A future that drives a stream to its end, calling `f` on each item; it
/// resolves once the stream ends, and stops at the first error, of the stream
/// or of `f`, which it reports.
///
/// One advance handles at most `u64::MAX` events before it reports that the
/// caller must wait.
pub struct ForEach<S: Stream, F> where F: Fn(S::Item) -> Result<(), S::Error> {
    stream: S,
    f: F,
    done: bool,
    /// The items handed to `f` so far.
    fed: Ghost<Seq<S::Item>>,
    /// How many items the stream had handed out before the run began.
    base: Ghost<nat>,
}

/// What the run does over at most `fuel` events, from stream `s`, end flag
/// `done` and items fed `fed`, to `(s2, done2, fed2)`, returning `r`.
pub open spec fn for_each_run<S: Stream, F>(
    f: F,
    s: S,
    done: bool,
    fed: Seq<S::Item>,
    fuel: nat,
    s2: S,
    done2: bool,
    fed2: Seq<S::Item>,
    r: Poll<(), S::Error>,
) -> bool where
    F: Fn(S::Item) -> Result<(), S::Error>,
    decreases fuel,
{
    if fuel == 0 || done {
        s2 == s && done2 == done && fed2 == fed && r == Ok::<Async<()>, S::Error>(Async::NotReady)
    } else {
        exists|s1: S, rs: Poll<Option<S::Item>, S::Error>| #[trigger] steps(s, s1, rs) && match rs {
            Ok(Async::Ready(Some(x))) => exists|fr: Result<(), S::Error>| #[trigger] f.ensures((x,), fr) && match fr {
                Ok(()) => for_each_run(f, s1, false, fed.push(x), (fuel - 1) as nat, s2, done2, fed2, r),
                Err(e) => s2 == s1 && done2 && fed2 == fed.push(x) && r == Err::<Async<()>, S::Error>(e),
            },
            Ok(Async::Ready(None)) => s2 == s1 && done2 && fed2 == fed && r == Ok::<Async<()>, S::Error>(Async::Ready(())),
            Ok(Async::NotReady) => s2 == s1 && !done2 && fed2 == fed && r == Ok::<Async<()>, S::Error>(Async::NotReady),
            Err(e) => s2 == s1 && done2 && fed2 == fed && r == Err::<Async<()>, S::Error>(e),
        }
    }
}

/// Runs `f` on every item of `stream`.
pub fn new<S: Stream, F>(stream: S, f: F) -> (fe: ForEach<S, F>) where
    F: Fn(S::Item) -> Result<(), S::Error>,
    requires
        stream.inv(),
        forall|x: S::Item| #[trigger] f.requires((x,)),
    ensures
        fe.source() == stream,
        fe.action() == f,
        !fe.is_done(),
        fe.fed().len() == 0,
        fe.source_base() == stream.produced().len(),
        fe.inv(),
{
    let fe = ForEach { stream, f, done: false, fed: Ghost(Seq::empty()), base: Ghost(stream.produced().len()) };
    assert(fe.fed() =~= fe.source().produced().skip(fe.source_base() as int));
    fe
}

impl<S: Stream, F> ForEach<S, F> where F: Fn(S::Item) -> Result<(), S::Error> {
    /// The stream being run.
    pub closed spec fn source(&self) -> S {
        self.stream
    }

    /// The function called on each item.
    pub closed spec fn action(&self) -> F {
        self.f
    }

    /// Whether the run has resolved or failed.
    pub closed spec fn is_done(&self) -> bool {
        self.done
    }

    /// The items handed to the function so far, in order.
    pub closed spec fn fed(&self) -> Seq<S::Item> {
        self.fed@
    }

    /// How many items the stream had handed out before the run began.
    pub closed spec fn source_base(&self) -> nat {
        self.base@
    }
}

impl<S: Stream, F> Future for ForEach<S, F> where F: Fn(S::Item) -> Result<(), S::Error> {
    type Item = ();
    type Error = S::Error;

    open spec fn inv(&self) -> bool {
        &&& self.source().inv()
        &&& forall|x: S::Item| #[trigger] self.action().requires((x,))
        &&& self.source_base() <= self.source().produced().len()
        &&& self.fed() == self.source().produced().skip(self.source_base() as int)
    }

    open spec fn polled(&self, after: Self, r: Poll<(), S::Error>) -> bool {
        &&& after.action() == self.action()
        &&& after.source_base() == self.source_base()
        &&& for_each_run(
            self.action(),
            self.source(),
            self.is_done(),
            self.fed(),
            u64::MAX as nat,
            after.source(),
            after.is_done(),
            after.fed(),
            r,
        )
    }

    fn poll(&mut self) -> (r: Poll<(), S::Error>) {
        let ghost f0 = self.f;
        let ghost s0 = self.stream;
        let ghost d0 = self.done;
        let ghost fed0 = self.fed@;
        let mut fuel: u64 = u64::MAX;
        assert forall|x: S::Item| #[trigger] f0.requires((x,)) by {
            assert(old(self).action().requires((x,)));
        };
        loop
            invariant
                self.f == f0,
                f0 == old(self).f,
                s0 == old(self).stream,
                d0 == old(self).done,
                fed0 == old(self).fed@,
                self.base == old(self).base,
                self.stream.inv(),
                forall|x: S::Item| #[trigger] f0.requires((x,)),
                self.base@ <= self.stream.produced().len(),
                self.fed@ == self.stream.produced().skip(self.base@ as int),
                forall|s2: S, d2: bool, fed2: Seq<S::Item>, r2: Poll<(), S::Error>|
                    #[trigger] for_each_run(f0, self.stream, self.done, self.fed@, fuel as nat, s2, d2, fed2, r2)
                        ==> for_each_run(f0, s0, d0, fed0, u64::MAX as nat, s2, d2, fed2, r2),
            decreases fuel,
        {
            if fuel == 0 || self.done {
                assert(for_each_run(f0, self.stream, self.done, self.fed@, fuel as nat, self.stream, self.done, self.fed@, Ok(Async::NotReady)));
                return Ok(Async::NotReady);
            }
            let ghost fuel0 = fuel;
            fuel = fuel - 1;
            let ghost cur_s = self.stream;
            let ghost cur_fed = self.fed@;
            let rs = self.stream.poll();
            assert(steps(cur_s, self.stream, rs));
            match rs {
                Ok(Async::Ready(Some(x))) => {
                    let ghost xg = x;
                    let fr = (self.f)(x);
                    proof {
                        crate::stream::lemma_skip_push(cur_s.produced(), self.base@ as int, xg);
                        self.fed@ = self.fed@.push(xg);
                    }
                    assert(f0.ensures((xg,), fr));
                    match fr {
                        Ok(()) => {
                            assert forall|s2: S, d2: bool, fed2: Seq<S::Item>, r2: Poll<(), S::Error>|
                                #[trigger] for_each_run(f0, self.stream, self.done, self.fed@, fuel as nat, s2, d2, fed2, r2)
                                    implies for_each_run(f0, s0, d0, fed0, u64::MAX as nat, s2, d2, fed2, r2) by {
                                assert(for_each_run(f0, cur_s, false, cur_fed, fuel0 as nat, s2, d2, fed2, r2));
                            };
                        },
                        Err(e) => {
                            self.done = true;
                            assert(for_each_run(f0, cur_s, false, cur_fed, fuel0 as nat, self.stream, true, self.fed@, Err(e)));
                            return Err(e);
                        },
                    }
                },
                Ok(Async::Ready(None)) => {
                    self.done = true;
                    assert(for_each_run(f0, cur_s, false, cur_fed, fuel0 as nat, self.stream, true, self.fed@, Ok(Async::Ready(()))));
                    return Ok(Async::Ready(()));
                },
                Ok(Async::NotReady) => {
                    assert(for_each_run(f0, cur_s, false, cur_fed, fuel0 as nat, self.stream, false, self.fed@, Ok(Async::NotReady)));
                    return Ok(Async::NotReady);
                },
                Err(e) => {
                    self.done = true;
                    assert(for_each_run(f0, cur_s, false, cur_fed, fuel0 as nat, self.stream, true, self.fed@, Err(e)));
                    return Err(e);
                },
            }
        }
    }
}

} // verus!
