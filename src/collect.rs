use vstd::prelude::*;
use crate::future::Future;
use crate::poll::{Async, Poll};
use crate::stream::{Stream, steps};

verus! {

/// A future that drives a stream to its end and resolves to all of its
/// items, in order; an error drops what was gathered and is reported.
///
/// One advance handles at most `u64::MAX` events before it reports that the
/// caller must wait.
pub struct Collect<S: Stream> {
    stream: S,
    items: Vec<S::Item>,
    done: bool,
    /// How many items the stream had handed out before collecting began.
    base: Ghost<nat>,
}

/// What collecting does over at most `fuel` events, from stream `s` with
/// `items` gathered and end flag `done`, to `(s2, items2, done2)`,
/// returning `r`.
pub open spec fn collect_run<S: Stream>(
    s: S,
    items: Seq<S::Item>,
    done: bool,
    fuel: nat,
    s2: S,
    items2: Seq<S::Item>,
    done2: bool,
    r: Poll<Seq<S::Item>, S::Error>,
) -> bool
    decreases fuel,
{
    if fuel == 0 || done {
        s2 == s && items2 == items && done2 == done && r == Ok::<Async<Seq<S::Item>>, S::Error>(Async::NotReady)
    } else {
        exists|s1: S, rs: Poll<Option<S::Item>, S::Error>| #[trigger] steps(s, s1, rs) && match rs {
            Ok(Async::Ready(Some(x))) => collect_run(s1, items.push(x), false, (fuel - 1) as nat, s2, items2, done2, r),
            Ok(Async::Ready(None)) => s2 == s1 && items2.len() == 0 && done2
                && r == Ok::<Async<Seq<S::Item>>, S::Error>(Async::Ready(items)),
            Ok(Async::NotReady) => s2 == s1 && items2 == items && !done2
                && r == Ok::<Async<Seq<S::Item>>, S::Error>(Async::NotReady),
            Err(e) => s2 == s1 && items2.len() == 0 && done2 && r == Err::<Async<Seq<S::Item>>, S::Error>(e),
        }
    }
}

/// A run that resolves to a value resolves to the items gathered before it
/// and all the items pulled during it, in order.
proof fn lemma_run_gathers<S: Stream>(
    s: S,
    items: Seq<S::Item>,
    done: bool,
    fuel: nat,
    s2: S,
    items2: Seq<S::Item>,
    done2: bool,
    v: Seq<S::Item>,
    base: int,
)
    requires
        collect_run(s, items, done, fuel, s2, items2, done2, Ok(Async::Ready(v))),
        0 <= base <= s.produced().len(),
        items == s.produced().skip(base),
    ensures
        base <= s2.produced().len(),
        v == s2.produced().skip(base),
    decreases fuel,
{
    if fuel > 0 && !done {
        let (s1, rs) = choose|s1: S, rs: Poll<Option<S::Item>, S::Error>| #[trigger] steps(s, s1, rs) && match rs {
            Ok(Async::Ready(Some(x))) => collect_run(s1, items.push(x), false, (fuel - 1) as nat, s2, items2, done2, Ok(Async::Ready(v))),
            Ok(Async::Ready(None)) => s2 == s1 && items2.len() == 0 && done2
                && Ok::<Async<Seq<S::Item>>, S::Error>(Async::Ready(v)) == Ok::<Async<Seq<S::Item>>, S::Error>(Async::Ready(items)),
            Ok(Async::NotReady) => s2 == s1 && items2 == items && !done2
                && Ok::<Async<Seq<S::Item>>, S::Error>(Async::Ready(v)) == Ok::<Async<Seq<S::Item>>, S::Error>(Async::NotReady),
            Err(e) => s2 == s1 && items2.len() == 0 && done2
                && Ok::<Async<Seq<S::Item>>, S::Error>(Async::Ready(v)) == Err::<Async<Seq<S::Item>>, S::Error>(e),
        };
        if let Ok(Async::Ready(Some(x))) = rs {
            crate::stream::lemma_skip_push(s.produced(), base, x);
            lemma_run_gathers(s1, items.push(x), false, (fuel - 1) as nat, s2, items2, done2, v, base);
        }
    }
}

/// When collecting resolves, it resolves to exactly the items the stream
/// handed out since collecting began, in the order it handed them out.
pub proof fn lemma_collect_resolves_to_all<S: Stream>(c: Collect<S>, after: Collect<S>, v: Vec<S::Item>)
    requires
        c.inv(),
        c.polled(after, Ok(Async::Ready(v))),
    ensures
        v@ == after.source().produced().skip(c.source_base() as int),
{
    lemma_run_gathers(
        c.source(), c.gathered(), c.is_done(), u64::MAX as nat,
        after.source(), after.gathered(), after.is_done(), v@, c.source_base() as int,
    );
}

/// Collects the items of `stream` into a vector.
pub fn new<S: Stream>(stream: S) -> (c: Collect<S>)
    requires
        stream.inv(),
    ensures
        c.source() == stream,
        c.gathered().len() == 0,
        !c.is_done(),
        c.source_base() == stream.produced().len(),
        c.inv(),
{
    let c = Collect { stream, items: Vec::new(), done: false, base: Ghost(stream.produced().len()) };
    assert(c.gathered() =~= c.source().produced().skip(c.source_base() as int));
    c
}

impl<S: Stream> Collect<S> {
    /// The stream being collected.
    pub closed spec fn source(&self) -> S {
        self.stream
    }

    /// The items gathered so far.
    pub closed spec fn gathered(&self) -> Seq<S::Item> {
        self.items@
    }

    /// Whether the collection has resolved or failed.
    pub closed spec fn is_done(&self) -> bool {
        self.done
    }

    /// How many items the stream had handed out before collecting began.
    pub closed spec fn source_base(&self) -> nat {
        self.base@
    }
}

impl<S: Stream> Future for Collect<S> {
    type Item = Vec<S::Item>;
    type Error = S::Error;

    open spec fn inv(&self) -> bool {
        &&& self.source().inv()
        &&& self.source_base() <= self.source().produced().len()
        &&& !self.is_done() ==> self.gathered() == self.source().produced().skip(self.source_base() as int)
    }

    open spec fn polled(&self, after: Self, r: Poll<Vec<S::Item>, S::Error>) -> bool {
        &&& after.source_base() == self.source_base()
        &&& collect_run(
            self.source(),
            self.gathered(),
            self.is_done(),
            u64::MAX as nat,
            after.source(),
            after.gathered(),
            after.is_done(),
            match r {
                Ok(Async::Ready(v)) => Ok(Async::Ready(v@)),
                Ok(Async::NotReady) => Ok(Async::NotReady),
                Err(e) => Err(e),
            },
        )
    }

    fn poll(&mut self) -> (r: Poll<Vec<S::Item>, S::Error>) {
        let ghost s0 = self.stream;
        let ghost i0 = self.items@;
        let ghost d0 = self.done;
        let mut fuel: u64 = u64::MAX;
        loop
            invariant
                s0 == old(self).stream,
                i0 == old(self).items@,
                d0 == old(self).done,
                self.base == old(self).base,
                self.stream.inv(),
                self.base@ <= self.stream.produced().len(),
                !self.done ==> self.items@ == self.stream.produced().skip(self.base@ as int),
                forall|s2: S, it2: Seq<S::Item>, d2: bool, r2: Poll<Seq<S::Item>, S::Error>|
                    #[trigger] collect_run(self.stream, self.items@, self.done, fuel as nat, s2, it2, d2, r2)
                        ==> collect_run(s0, i0, d0, u64::MAX as nat, s2, it2, d2, r2),
            decreases fuel,
        {
            if fuel == 0 || self.done {
                assert(collect_run(self.stream, self.items@, self.done, fuel as nat, self.stream, self.items@, self.done, Ok(Async::NotReady)));
                return Ok(Async::NotReady);
            }
            let ghost fuel0 = fuel;
            fuel = fuel - 1;
            let ghost cur_s = self.stream;
            let ghost cur_i = self.items@;
            let rs = self.stream.poll();
            assert(steps(cur_s, self.stream, rs));
            match rs {
                Ok(Async::Ready(Some(x))) => {
                    self.items.push(x);
                    proof {
                        crate::stream::lemma_skip_push(cur_s.produced(), self.base@ as int, x);
                    }
                    assert forall|s2: S, it2: Seq<S::Item>, d2: bool, r2: Poll<Seq<S::Item>, S::Error>|
                        #[trigger] collect_run(self.stream, self.items@, self.done, fuel as nat, s2, it2, d2, r2)
                            implies collect_run(s0, i0, d0, u64::MAX as nat, s2, it2, d2, r2) by {
                        assert(collect_run(cur_s, cur_i, false, fuel0 as nat, s2, it2, d2, r2));
                    };
                },
                Ok(Async::Ready(None)) => {
                    let mut out: Vec<S::Item> = Vec::new();
                    std::mem::swap(&mut self.items, &mut out);
                    self.done = true;
                    assert(collect_run(cur_s, cur_i, false, fuel0 as nat, self.stream, self.items@, true, Ok(Async::Ready(out@))));
                    return Ok(Async::Ready(out));
                },
                Ok(Async::NotReady) => {
                    assert(collect_run(cur_s, cur_i, false, fuel0 as nat, self.stream, self.items@, false, Ok(Async::NotReady)));
                    return Ok(Async::NotReady);
                },
                Err(e) => {
                    self.items = Vec::new();
                    self.done = true;
                    assert(collect_run(cur_s, cur_i, false, fuel0 as nat, self.stream, self.items@, true, Err(e)));
                    return Err(e);
                },
            }
        }
    }
}

} // verus!
