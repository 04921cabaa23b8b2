use vstd::prelude::*;
use crate::filling::{all_valid, fill_pool, hands_out_valid, takes_in};
use crate::future::Future;
use crate::poll::{Async, Poll};
use crate::stream::Stream;

verus! {

/// A stream that turns each item of its source, a future, into the future's
/// value: up to `limit` futures run at once, and their values come out in the
/// order the source handed the futures out.
pub struct Buffered<S: Stream> where S::Item: Future<Error = S::Error> {
    stream: S,
    done: bool,
    queue: Vec<S::Item>,
    max: usize,
    /// For each future in flight, its position among all futures pulled.
    ids: Ghost<Seq<nat>>,
    /// The positions of the futures that have resolved, in the order they did.
    resolved: Ghost<Seq<nat>>,
    produced: Ghost<Seq<<S::Item as Future>::Item>>,
    /// How many items the source had handed out before buffering began.
    base: Ghost<nat>,
}

/// Buffers the futures of `stream`, with at most `amt` in flight.
pub fn new<S: Stream>(stream: S, amt: usize) -> (b: Buffered<S>)
    where S::Item: Future<Error = S::Error>,
    requires
        stream.inv(),
        hands_out_valid::<S>(),
        amt >= 1,
    ensures
        b.source() == stream,
        !b.source_done(),
        b.in_flight().len() == 0,
        b.limit() == amt,
        b.completion_order().len() == 0,
        b.produced().len() == 0,
        b.inv(),
{
    Buffered {
        stream,
        done: false,
        queue: Vec::new(),
        max: amt,
        ids: Ghost(Seq::empty()),
        resolved: Ghost(Seq::empty()),
        produced: Ghost(Seq::empty()),
        base: Ghost(stream.produced().len()),
    }
}

/// Whether some poll of `f` returns `r`.
pub open spec fn resolves<F: Future>(f: F, r: Poll<F::Item, F::Error>) -> bool {
    exists|h: F| #[trigger] f.polled(h, r)
}

impl<S: Stream> Buffered<S> where S::Item: Future<Error = S::Error> {
    /// The source stream.
    pub closed spec fn source(&self) -> S {
        self.stream
    }

    /// Whether the source has ended.
    pub closed spec fn source_done(&self) -> bool {
        self.done
    }

    /// The futures in flight, oldest first.
    pub closed spec fn in_flight(&self) -> Seq<S::Item> {
        self.queue@
    }

    /// The most futures that may be in flight at once.
    pub closed spec fn limit(&self) -> nat {
        self.max as nat
    }

    /// For each future in flight, its position among all futures pulled
    /// from the source since buffering began.
    pub closed spec fn in_flight_ids(&self) -> Seq<nat> {
        self.ids@
    }

    /// The positions of the futures that have resolved, in the order they did.
    pub closed spec fn completion_order(&self) -> Seq<nat> {
        self.resolved@
    }

    /// How many items the source had handed out before buffering began.
    pub closed spec fn source_base(&self) -> nat {
        self.base@
    }

    /// The positions of the futures in flight once the filling phase has
    /// brought their number to `n`: those already in flight, then the next
    /// positions in the order pulled.
    pub open spec fn ids_after_fill(&self, n: nat) -> Seq<nat> {
        let next = self.completion_order().len() + self.in_flight_ids().len();
        self.in_flight_ids() + Seq::new((n - self.in_flight().len()) as nat, |i: int| (next + i) as nat)
    }

    /// How an advance that returned `r`, with `n` futures in flight after
    /// filling, moves the positions: when the oldest future resolved, its
    /// position leaves the ones in flight and joins the completion order.
    pub open spec fn books(&self, n: nat, after: Self, r: Poll<Option<<S::Item as Future>::Item>, S::Error>) -> bool {
        let ids = self.ids_after_fill(n);
        if n > 0 && (r matches Ok(Async::Ready(Some(_))) || r is Err) {
            &&& after.in_flight_ids() == ids.drop_first()
            &&& after.completion_order() == self.completion_order().push(ids[0])
        } else {
            &&& after.in_flight_ids() == ids
            &&& after.completion_order() == self.completion_order()
        }
    }

    /// The part of an advance after filling: from source `s`, end flag `d`
    /// and futures in flight `q`, poll the oldest future only.
    pub open spec fn head_step(
        &self,
        s: S,
        d: bool,
        q: Seq<S::Item>,
        after: Self,
        r: Poll<Option<<S::Item as Future>::Item>, S::Error>,
    ) -> bool {
        &&& after.source() == s
        &&& after.source_done() == d
        &&& if q.len() == 0 {
            &&& after.in_flight() == q
            &&& r == if d {
                Ok::<Async<Option<<S::Item as Future>::Item>>, S::Error>(Async::Ready(None))
            } else {
                Ok(Async::NotReady)
            }
        } else {
            match r {
                Ok(Async::Ready(Some(v))) => {
                    &&& resolves(q[0], Ok(Async::Ready(v)))
                    &&& after.in_flight() == q.drop_first()
                },
                Err(e) => {
                    &&& resolves(q[0], Err(e))
                    &&& after.in_flight() == q.drop_first()
                },
                Ok(Async::NotReady) => {
                    &&& after.in_flight().len() == q.len()
                    &&& q[0].polled(after.in_flight()[0], Ok(Async::NotReady))
                    &&& after.in_flight() == q.update(0, after.in_flight()[0])
                },
                Ok(Async::Ready(None)) => false,
            }
        }
    }
}

impl<S: Stream> Stream for Buffered<S> where S::Item: Future<Error = S::Error> {
    type Item = <S::Item as Future>::Item;
    type Error = S::Error;

    closed spec fn produced(&self) -> Seq<Self::Item> {
        self.produced@
    }

    open spec fn inv(&self) -> bool {
        let n = self.completion_order().len();
        &&& self.source().inv()
        &&& hands_out_valid::<S>()
        &&& all_valid(self.in_flight())
        &&& 1 <= self.limit()
        &&& self.in_flight().len() <= self.limit()
        &&& self.in_flight_ids().len() == self.in_flight().len()
        &&& self.source().produced().len() == self.source_base() + n + self.in_flight().len()
        &&& forall|i: int| 0 <= i < self.in_flight().len() ==> #[trigger] self.in_flight_ids()[i] == n + i
        &&& forall|j: int| 0 <= j < n ==> #[trigger] self.completion_order()[j] == j
    }

    open spec fn polled(&self, after: Self, r: Poll<Option<Self::Item>, S::Error>) -> bool {
        &&& after.limit() == self.limit()
        &&& after.source_base() == self.source_base()
        &&& exists|s: S, d: bool, q: Seq<S::Item>, rf: Result<(), S::Error>| {
            &&& #[trigger] takes_in(self.source(), self.source_done(), self.in_flight(), self.limit(), s, d, q, rf)
            &&& q == self.in_flight() + s.produced().subrange(self.source().produced().len() as int, s.produced().len() as int)
            &&& match rf {
                Err(e) => {
                    &&& r == Err::<Async<Option<Self::Item>>, S::Error>(e)
                    &&& after.source() == s
                    &&& after.source_done() == d
                    &&& after.in_flight() == q
                    &&& after.in_flight_ids() == self.ids_after_fill(q.len())
                    &&& after.completion_order() == self.completion_order()
                },
                Ok(_) => self.head_step(s, d, q, after, r) && self.books(q.len(), after, r),
            }
        }
    }

    fn poll(&mut self) -> (r: Poll<Option<Self::Item>, S::Error>) {
        let ghost n0 = self.queue@.len();
        let filled = fill_pool(&mut self.stream, &mut self.done, &mut self.queue, self.max);
        let ghost s1 = self.stream;
        let ghost d1 = self.done;
        let ghost q1 = self.queue@;
        proof {
            self.ids@ = old(self).ids_after_fill(q1.len());
        }
        match filled {
            Err(e) => {
                assert(takes_in(old(self).source(), old(self).source_done(), old(self).in_flight(), old(self).limit(), s1, d1, q1, filled));
                return Err(e);
            },
            Ok(()) => {},
        }
        assert(takes_in(old(self).source(), old(self).source_done(), old(self).in_flight(), old(self).limit(), s1, d1, q1, filled));
        if self.queue.len() == 0 {
            if self.done {
                return Ok(Async::Ready(None));
            } else {
                return Ok(Async::NotReady);
            }
        }
        let mut head = self.queue.remove(0);
        let ghost h0 = head;
        match head.poll() {
            Ok(Async::Ready(v)) => {
                proof {
                    assert(h0 == q1[0]);
                    assert(q1[0].polled(head, Ok(Async::Ready(v))));
                    assert(self.queue@ =~= q1.drop_first());
                    let id = self.ids@[0];
                    self.ids@ = self.ids@.drop_first();
                    self.resolved@ = self.resolved@.push(id);
                    self.produced@ = self.produced@.push(v);
                }
                assert(self.head_step(s1, d1, q1, *self, Ok(Async::Ready(Some(v)))));
                Ok(Async::Ready(Some(v)))
            },
            Err(e) => {
                proof {
                    assert(h0 == q1[0]);
                    assert(q1[0].polled(head, Err(e)));
                    assert(self.queue@ =~= q1.drop_first());
                    let id = self.ids@[0];
                    self.ids@ = self.ids@.drop_first();
                    self.resolved@ = self.resolved@.push(id);
                }
                assert(self.head_step(s1, d1, q1, *self, Err(e)));
                Err(e)
            },
            Ok(Async::NotReady) => {
                self.queue.insert(0, head);
                assert(self.queue@ =~= q1.update(0, head));
                assert(self.head_step(s1, d1, q1, *self, Ok(Async::NotReady)));
                Ok(Async::NotReady)
            },
        }
    }
}

/// Buffering keeps the source's order and its bound: the futures resolve
/// strictly in the order they were pulled, the `j`-th to resolve being the
/// `j`-th pulled, and never more than `limit` are in flight.
pub proof fn lemma_buffered_in_order<S: Stream>(b: Buffered<S>)
    where S::Item: Future<Error = S::Error>,
    requires
        b.inv(),
    ensures
        b.in_flight().len() <= b.limit(),
        forall|j: int| 0 <= j < b.completion_order().len() ==> #[trigger] b.completion_order()[j] == j,
        forall|i: int| 0 <= i < b.in_flight().len()
            ==> #[trigger] b.in_flight_ids()[i] == b.completion_order().len() + i,
{
}

/// Each value a buffered stream hands out is what the future pulled at
/// position `j` resolved to, where `j` futures had completed before: the
/// `j`-th value out comes from the `j`-th future in, whatever order the
/// futures finish in.
pub proof fn lemma_buffered_value_from_next_in_order<S: Stream>(
    b: Buffered<S>,
    after: Buffered<S>,
    v: <S::Item as Future>::Item,
)
    where S::Item: Future<Error = S::Error>,
    requires
        b.inv(),
        b.polled(after, Ok(Async::Ready(Some(v)))),
    ensures
        after.completion_order() == b.completion_order().push(b.completion_order().len()),
        exists|q: Seq<S::Item>| {
            &&& q.len() > 0
            &&& resolves(q[0], Ok(Async::Ready(v)))
            &&& b.ids_after_fill(q.len())[0] == b.completion_order().len()
        },
{
    let (s, d, q, rf) = choose|s: S, d: bool, q: Seq<S::Item>, rf: Result<(), S::Error>| {
        &&& #[trigger] takes_in(b.source(), b.source_done(), b.in_flight(), b.limit(), s, d, q, rf)
        &&& q == b.in_flight() + s.produced().subrange(b.source().produced().len() as int, s.produced().len() as int)
        &&& match rf {
            Err(e) => {
                &&& Ok::<Async<Option<<S::Item as Future>::Item>>, S::Error>(Async::Ready(Some(v))) == Err::<Async<Option<<S::Item as Future>::Item>>, S::Error>(e)
                &&& after.source() == s
                &&& after.source_done() == d
                &&& after.in_flight() == q
                &&& after.in_flight_ids() == b.ids_after_fill(q.len())
                &&& after.completion_order() == b.completion_order()
            },
            Ok(_) => b.head_step(s, d, q, after, Ok(Async::Ready(Some(v)))) && b.books(q.len(), after, Ok(Async::Ready(Some(v)))),
        }
    };
    let ids = b.ids_after_fill(q.len());
    if b.in_flight().len() > 0 {
        assert(ids[0] == b.in_flight_ids()[0]);
    } else {
        assert(ids[0] == b.completion_order().len() + b.in_flight_ids().len());
    }
}

} // verus!
