use vstd::prelude::*;
use crate::poll::{Async, Poll, is_item, item_of};
use crate::stream::{Stream, steps};

verus! {

/// A stream of the items of the streams that its outer stream hands out,
/// each run to its end before the next is pulled; errors of either level
/// are passed through.
///
/// One advance moves past at most `u64::MAX` ended streams before it reports
/// that the caller must wait.
pub struct Flatten<S: Stream> where S::Item: Stream<Error = S::Error> {
    stream: S,
    next: Option<S::Item>,
    produced: Ghost<Seq<<S::Item as Stream>::Item>>,
}

/// What flattening does over at most `fuel` events, from outer stream `s`
/// and current inner stream `cur` to `(s2, cur2)`, returning `r`.
pub open spec fn flatten_run<S: Stream>(
    s: S,
    cur: Option<S::Item>,
    fuel: nat,
    s2: S,
    cur2: Option<S::Item>,
    r: Poll<Option<<S::Item as Stream>::Item>, S::Error>,
) -> bool where S::Item: Stream<Error = S::Error>,
    decreases fuel,
{
    if fuel == 0 {
        s2 == s && cur2 == cur && r == Ok::<Async<Option<<S::Item as Stream>::Item>>, S::Error>(Async::NotReady)
    } else {
        match cur {
            None => exists|s1: S, rs: Poll<Option<S::Item>, S::Error>| #[trigger] steps(s, s1, rs) && match rs {
                Ok(Async::Ready(Some(t))) => flatten_run(s1, Some(t), (fuel - 1) as nat, s2, cur2, r),
                Ok(Async::Ready(None)) => s2 == s1 && cur2 is None
                    && r == Ok::<Async<Option<<S::Item as Stream>::Item>>, S::Error>(Async::Ready(None)),
                Ok(Async::NotReady) => s2 == s1 && cur2 is None
                    && r == Ok::<Async<Option<<S::Item as Stream>::Item>>, S::Error>(Async::NotReady),
                Err(e) => s2 == s1 && cur2 is None && r == Err::<Async<Option<<S::Item as Stream>::Item>>, S::Error>(e),
            },
            Some(t) => exists|t1: S::Item, rt: Poll<Option<<S::Item as Stream>::Item>, S::Error>| #[trigger] steps(t, t1, rt) && match rt {
                Ok(Async::Ready(None)) => flatten_run(s, None, (fuel - 1) as nat, s2, cur2, r),
                _ => s2 == s && cur2 == Some(t1) && r == rt,
            },
        }
    }
}

/// Whether every stream that a stream of type `S` hands out from a
/// consistent state is itself consistent.
pub open spec fn hands_out_valid_streams<S: Stream>() -> bool where S::Item: Stream<Error = S::Error> {
    forall|s: S, s2: S, t: S::Item| s.inv() && #[trigger] s.polled(s2, Ok(Async::Ready(Some(t)))) ==> t.inv()
}

/// Flattens `stream`, a stream of streams.
pub fn new<S: Stream>(stream: S) -> (fl: Flatten<S>) where S::Item: Stream<Error = S::Error>
    requires
        stream.inv(),
        hands_out_valid_streams::<S>(),
    ensures
        fl.outer() == stream,
        fl.current() is None,
        fl.produced().len() == 0,
        fl.inv(),
{
    Flatten { stream, next: None, produced: Ghost(Seq::empty()) }
}

impl<S: Stream> Flatten<S> where S::Item: Stream<Error = S::Error> {
    /// The stream of streams.
    pub closed spec fn outer(&self) -> S {
        self.stream
    }

    /// The inner stream being run, if any.
    pub closed spec fn current(&self) -> Option<S::Item> {
        self.next
    }
}

impl<S: Stream> Stream for Flatten<S> where S::Item: Stream<Error = S::Error> {
    type Item = <S::Item as Stream>::Item;
    type Error = S::Error;

    closed spec fn produced(&self) -> Seq<<S::Item as Stream>::Item> {
        self.produced@
    }

    open spec fn inv(&self) -> bool {
        &&& self.outer().inv()
        &&& hands_out_valid_streams::<S>()
        &&& self.current() matches Some(t) ==> t.inv()
    }

    open spec fn polled(&self, after: Self, r: Poll<Option<<S::Item as Stream>::Item>, S::Error>) -> bool {
        flatten_run(self.outer(), self.current(), u64::MAX as nat, after.outer(), after.current(), r)
    }

    fn poll(&mut self) -> (r: Poll<Option<<S::Item as Stream>::Item>, S::Error>) {
        let ghost s0 = self.stream;
        let ghost c0 = self.next;
        let mut fuel: u64 = u64::MAX;
        loop
            invariant
                s0 == old(self).stream,
                c0 == old(self).next,
                self.produced == old(self).produced,
                self.stream.inv(),
                hands_out_valid_streams::<S>(),
                self.next matches Some(t) ==> t.inv(),
                forall|s2: S, c2: Option<S::Item>, r2: Poll<Option<<S::Item as Stream>::Item>, S::Error>|
                    #[trigger] flatten_run(self.stream, self.next, fuel as nat, s2, c2, r2)
                        ==> flatten_run(s0, c0, u64::MAX as nat, s2, c2, r2),
            decreases fuel,
        {
            if fuel == 0 {
                assert(flatten_run(self.stream, self.next, fuel as nat, self.stream, self.next,
                    Ok::<Async<Option<<S::Item as Stream>::Item>>, S::Error>(Async::NotReady)));
                return Ok(Async::NotReady);
            }
            let ghost fuel0 = fuel;
            fuel = fuel - 1;
            let ghost cur_s = self.stream;
            let ghost cur_c = self.next;
            match self.next.take() {
                None => {
                    let rs = self.stream.poll();
                    assert(steps(cur_s, self.stream, rs));
                    match rs {
                        Ok(Async::Ready(Some(t))) => {
                            assert(cur_s.polled(self.stream, Ok(Async::Ready(Some(t)))));
                            self.next = Some(t);
                            assert forall|s2: S, c2: Option<S::Item>, r2: Poll<Option<<S::Item as Stream>::Item>, S::Error>|
                                #[trigger] flatten_run(self.stream, self.next, fuel as nat, s2, c2, r2)
                                    implies flatten_run(s0, c0, u64::MAX as nat, s2, c2, r2) by {
                                assert(flatten_run(cur_s, cur_c, fuel0 as nat, s2, c2, r2));
                            };
                        },
                        Ok(Async::Ready(None)) => {
                            let r = Ok(Async::Ready(None));
                            assert(flatten_run(cur_s, cur_c, fuel0 as nat, self.stream, self.next, r));
                            return r;
                        },
                        Ok(Async::NotReady) => {
                            let r = Ok(Async::NotReady);
                            assert(flatten_run(cur_s, cur_c, fuel0 as nat, self.stream, self.next, r));
                            return r;
                        },
                        Err(e) => {
                            let r = Err(e);
                            assert(flatten_run(cur_s, cur_c, fuel0 as nat, self.stream, self.next, r));
                            return r;
                        },
                    }
                },
                Some(t) => {
                    let mut t = t;
                    let ghost t0 = t;
                    let rt = t.poll();
                    assert(steps(t0, t, rt));
                    match rt {
                        Ok(Async::Ready(None)) => {
                            assert forall|s2: S, c2: Option<S::Item>, r2: Poll<Option<<S::Item as Stream>::Item>, S::Error>|
                                #[trigger] flatten_run(self.stream, self.next, fuel as nat, s2, c2, r2)
                                    implies flatten_run(s0, c0, u64::MAX as nat, s2, c2, r2) by {
                                assert(flatten_run(cur_s, cur_c, fuel0 as nat, s2, c2, r2));
                            };
                        },
                        _ => {
                            self.next = Some(t);
                            assert(flatten_run(cur_s, cur_c, fuel0 as nat, self.stream, self.next, rt));
                            proof {
                                if is_item(rt) {
                                    self.produced@ = self.produced@.push(item_of(rt));
                                }
                            }
                            return rt;
                        },
                    }
                },
            }
        }
    }
}

} // verus!
