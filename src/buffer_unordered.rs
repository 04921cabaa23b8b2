use vstd::prelude::*;
use crate::buffered::resolves;
use crate::filling::{all_valid, fill_pool, hands_out_valid, takes_in};
use crate::future::Future;
use crate::poll::{Async, Poll};
use crate::stream::Stream;

verus! {

/// A stream that turns each item of its source, a future, into the future's
/// value: up to `limit` futures run at once, every unfinished one is polled on
/// each advance, and of those that have finished the oldest comes out first;
/// the others keep their outcome for later advances.
pub struct BufferUnordered<S: Stream> where S::Item: Future<Error = S::Error> {
    stream: S,
    done: bool,
    queue: Vec<S::Item>,
    /// For each future in flight, its outcome once it has finished.
    results: Vec<Option<Result<<S::Item as Future>::Item, S::Error>>>,
    max: usize,
    /// For each future in flight, its position among all futures pulled.
    ids: Ghost<Seq<nat>>,
    /// The positions of the futures that have resolved, in the order they did.
    resolved: Ghost<Seq<nat>>,
    produced: Ghost<Seq<<S::Item as Future>::Item>>,
    /// How many items the source had handed out before buffering began.
    base: Ghost<nat>,
}

/// Buffers the futures of `stream`, with at most `amt` in flight, handing out
/// values in the order the futures resolve.
pub fn new<S: Stream>(stream: S, amt: usize) -> (b: BufferUnordered<S>)
    where S::Item: Future<Error = S::Error>,
    requires
        stream.inv(),
        hands_out_valid::<S>(),
        amt >= 1,
    ensures
        b.source() == stream,
        !b.source_done(),
        b.in_flight().len() == 0,
        b.limit() == amt,
        b.completion_order().len() == 0,
        b.produced().len() == 0,
        b.inv(),
{
    let b = BufferUnordered {
        stream,
        done: false,
        queue: Vec::new(),
        results: Vec::new(),
        max: amt,
        ids: Ghost(Seq::empty()),
        resolved: Ghost(Seq::empty()),
        produced: Ghost(Seq::empty()),
        base: Ghost(stream.produced().len()),
    };
    assert(b.completion_order() + b.in_flight_ids() =~= Seq::<nat>::empty());
    b
}

/// What an advance does to one future in flight with outcome `res`: an
/// unfinished one is polled once, moving to `f2` with outcome `res2`; a
/// finished one is left alone.
pub open spec fn slot_step<F: Future>(
    f: F,
    res: Option<Result<F::Item, F::Error>>,
    f2: F,
    res2: Option<Result<F::Item, F::Error>>,
) -> bool {
    match res {
        Some(_) => f2 == f && res2 == res,
        None => match res2 {
            None => f.polled(f2, Ok(Async::NotReady)),
            Some(Ok(v)) => f.polled(f2, Ok(Async::Ready(v))),
            Some(Err(e)) => f.polled(f2, Err(e)),
        },
    }
}

/// Whether every future of `q`, with outcomes `res`, took its step to
/// `q2` with outcomes `res2`.
pub open spec fn all_stepped<F: Future>(
    q: Seq<F>,
    res: Seq<Option<Result<F::Item, F::Error>>>,
    q2: Seq<F>,
    res2: Seq<Option<Result<F::Item, F::Error>>>,
) -> bool {
    &&& res.len() == q.len()
    &&& q2.len() == q.len()
    &&& res2.len() == q.len()
    &&& forall|i: int| 0 <= i < q.len() ==> #[trigger] slot_step(q[i], res[i], q2[i], res2[i])
}

/// Whether `k` is the oldest position with a finished outcome.
pub open spec fn first_finished<V, E>(res: Seq<Option<Result<V, E>>>, k: int) -> bool {
    &&& 0 <= k < res.len()
    &&& res[k] is Some
    &&& forall|j: int| 0 <= j < k ==> #[trigger] res[j] is None
}

/// The step handed out for an outcome.
pub open spec fn outcome_step<V, E>(o: Option<Result<V, E>>) -> Poll<Option<V>, E> {
    match o {
        Some(Ok(v)) => Ok(Async::Ready(Some(v))),
        Some(Err(e)) => Err(e),
        None => Ok(Async::NotReady),
    }
}

/// Whether, from futures `q` with outcomes `res` and positions `ids` after
/// polling, the oldest finished one was taken out and its outcome handed out
/// as `r`, leaving `q2`, `res2` and `ids2`, its position being appended to
/// the completion order `order` to give `order2`; with none finished, the end is reported once the source
/// has ended (`d`) and nothing is in flight, and otherwise a wait.
pub open spec fn handed_out<F: Future>(
    q: Seq<F>,
    res: Seq<Option<Result<F::Item, F::Error>>>,
    ids: Seq<nat>,
    order: Seq<nat>,
    d: bool,
    q2: Seq<F>,
    res2: Seq<Option<Result<F::Item, F::Error>>>,
    ids2: Seq<nat>,
    order2: Seq<nat>,
    r: Poll<Option<F::Item>, F::Error>,
) -> bool {
    ||| exists|k: int| #[trigger] first_finished(res, k)
        && q2 == q.remove(k) && res2 == res.remove(k) && r == outcome_step(res[k])
        && ids2 == ids.remove(k) && order2 == order.push(ids[k])
    ||| {
        &&& forall|j: int| 0 <= j < res.len() ==> #[trigger] res[j] is None
        &&& q2 == q
        &&& res2 == res
        &&& ids2 == ids
        &&& order2 == order
        &&& r == if q.len() == 0 && d {
            Ok::<Async<Option<F::Item>>, F::Error>(Async::Ready(None))
        } else {
            Ok(Async::NotReady)
        }
    }
}

/// Whether polling every unfinished future of `q` and then handing out as
/// `handed_out` says leads to `q2` and `res2`, returning `r`.
pub open spec fn scanned<F: Future>(
    q: Seq<F>,
    res: Seq<Option<Result<F::Item, F::Error>>>,
    ids: Seq<nat>,
    order: Seq<nat>,
    d: bool,
    q2: Seq<F>,
    res2: Seq<Option<Result<F::Item, F::Error>>>,
    ids2: Seq<nat>,
    order2: Seq<nat>,
    r: Poll<Option<F::Item>, F::Error>,
) -> bool {
    exists|qm: Seq<F>, rm: Seq<Option<Result<F::Item, F::Error>>>| #[trigger] all_stepped(q, res, qm, rm)
        && handed_out(qm, rm, ids, order, d, q2, res2, ids2, order2, r)
}

/// `res` followed by no outcome for each future added since, up to `n`.
pub open spec fn padded<V, E>(res: Seq<Option<Result<V, E>>>, n: nat) -> Seq<Option<Result<V, E>>> {
    res + Seq::new((n - res.len()) as nat, |i: int| None)
}

/// Appends no outcome to `res` until it has `n` entries.
fn pad_outcomes<V, E>(res: &mut Vec<Option<Result<V, E>>>, n: usize)
    requires
        old(res)@.len() <= n,
    ensures
        final(res)@ == padded(old(res)@, n as nat),
{
    let ghost res0 = res@;
    while res.len() < n
        invariant
            res0 == old(res)@,
            res0.len() <= res@.len() <= n,
            res@ == res0 + Seq::new((res@.len() - res0.len()) as nat, |i: int| None::<Result<V, E>>),
        decreases n - res@.len(),
    {
        res.push(None);
        assert(res@ =~= res0 + Seq::new((res@.len() - res0.len()) as nat, |i: int| None::<Result<V, E>>));
    }
    assert(res@ =~= padded(res0, n as nat));
}

impl<S: Stream> BufferUnordered<S> where S::Item: Future<Error = S::Error> {
    /// The source stream.
    pub closed spec fn source(&self) -> S {
        self.stream
    }

    /// Whether the source has ended.
    pub closed spec fn source_done(&self) -> bool {
        self.done
    }

    /// The futures in flight, oldest first.
    pub closed spec fn in_flight(&self) -> Seq<S::Item> {
        self.queue@
    }

    /// For each future in flight, its outcome once it has finished.
    pub closed spec fn finished(&self) -> Seq<Option<Result<<S::Item as Future>::Item, S::Error>>> {
        self.results@
    }

    /// The most futures that may be in flight at once.
    pub closed spec fn limit(&self) -> nat {
        self.max as nat
    }

    /// For each future in flight, its position among all futures pulled
    /// from the source since buffering began.
    pub closed spec fn in_flight_ids(&self) -> Seq<nat> {
        self.ids@
    }

    /// The positions of the futures that have resolved, in the order they did.
    pub closed spec fn completion_order(&self) -> Seq<nat> {
        self.resolved@
    }

    /// How many items the source had handed out before buffering began.
    pub closed spec fn source_base(&self) -> nat {
        self.base@
    }

    /// How many futures have been pulled from the source since buffering began.
    pub open spec fn pulled(&self) -> int {
        self.source().produced().len() - self.source_base()
    }

    /// The part of an advance after filling: from source `s`, end flag `d`,
    /// futures in flight `q` and their outcomes `res`, poll every unfinished
    /// future and hand out the oldest finished one.
    pub open spec fn scan_step(
        &self,
        s: S,
        d: bool,
        q: Seq<S::Item>,
        res: Seq<Option<Result<<S::Item as Future>::Item, S::Error>>>,
        after: Self,
        r: Poll<Option<<S::Item as Future>::Item>, S::Error>,
    ) -> bool {
        &&& after.source() == s
        &&& after.source_done() == d
        &&& scanned(
            q,
            res,
            self.ids_after_fill(q.len()),
            self.completion_order(),
            d,
            after.in_flight(),
            after.finished(),
            after.in_flight_ids(),
            after.completion_order(),
            r,
        )
    }

    /// The positions of the futures in flight once the filling phase has
    /// brought their number to `n`: those already in flight, then the next
    /// positions in the order pulled.
    pub open spec fn ids_after_fill(&self, n: nat) -> Seq<nat> {
        let next = self.completion_order().len() + self.in_flight_ids().len();
        self.in_flight_ids() + Seq::new((n - self.in_flight().len()) as nat, |i: int| (next + i) as nat)
    }
}

/// Taking the entry at `k` out of `ids` and appending it to `done` keeps
/// `done + ids` free of duplicates and keeps its entries.
proof fn lemma_move_id(done: Seq<nat>, ids: Seq<nat>, k: int, bound: nat)
    requires
        0 <= k < ids.len(),
        (done + ids).no_duplicates(),
        forall|i: int| 0 <= i < (done + ids).len() ==> #[trigger] (done + ids)[i] < bound,
    ensures
        (done.push(ids[k]) + ids.remove(k)).no_duplicates(),
        forall|i: int| 0 <= i < (done.push(ids[k]) + ids.remove(k)).len()
            ==> #[trigger] (done.push(ids[k]) + ids.remove(k))[i] < bound,
{
    let all = done + ids;
    let all2 = done.push(ids[k]) + ids.remove(k);
    let n = done.len() as int;
    assert forall|i: int| 0 <= i < all2.len() implies all2[i] == all[
        if i < n { i } else if i == n { n + k } else if i - n - 1 < k { i - 1 } else { i }
    ] by {
        if i < n {
        } else if i == n {
        } else if i - n - 1 < k {
            assert(all2[i] == ids.remove(k)[i - n - 1]);
        } else {
            assert(all2[i] == ids.remove(k)[i - n - 1]);
        }
    };
    assert forall|i: int, j: int| 0 <= i < all2.len() && 0 <= j < all2.len() && i != j
        implies all2[i] != all2[j] by {
        let si = if i < n { i } else if i == n { n + k } else if i - n - 1 < k { i - 1 } else { i };
        let sj = if j < n { j } else if j == n { n + k } else if j - n - 1 < k { j - 1 } else { j };
        assert(all2[i] == all[si]);
        assert(all2[j] == all[sj]);
        assert(si != sj);
    };
    assert forall|i: int| 0 <= i < all2.len() implies #[trigger] all2[i] < bound by {
        let si = if i < n { i } else if i == n { n + k } else if i - n - 1 < k { i - 1 } else { i };
        assert(all2[i] == all[si]);
    };
}

impl<S: Stream> Stream for BufferUnordered<S> where S::Item: Future<Error = S::Error> {
    type Item = <S::Item as Future>::Item;
    type Error = S::Error;

    closed spec fn produced(&self) -> Seq<Self::Item> {
        self.produced@
    }

    open spec fn inv(&self) -> bool {
        let all = self.completion_order() + self.in_flight_ids();
        &&& self.source().inv()
        &&& hands_out_valid::<S>()
        &&& all_valid(self.in_flight())
        &&& 1 <= self.limit()
        &&& self.in_flight().len() <= self.limit()
        &&& self.in_flight_ids().len() == self.in_flight().len()
        &&& self.finished().len() == self.in_flight().len()
        &&& self.source_base() <= self.source().produced().len()
        &&& all.len() == self.pulled()
        &&& all.no_duplicates()
        &&& forall|i: int| 0 <= i < all.len() ==> #[trigger] all[i] < self.pulled()
    }

    open spec fn polled(&self, after: Self, r: Poll<Option<Self::Item>, S::Error>) -> bool {
        &&& after.limit() == self.limit()
        &&& after.source_base() == self.source_base()
        &&& exists|s: S, d: bool, q: Seq<S::Item>, rf: Result<(), S::Error>| {
            &&& #[trigger] takes_in(self.source(), self.source_done(), self.in_flight(), self.limit(), s, d, q, rf)
            &&& q == self.in_flight() + s.produced().subrange(self.source().produced().len() as int, s.produced().len() as int)
            &&& match rf {
                Err(e) => {
                    &&& r == Err::<Async<Option<Self::Item>>, S::Error>(e)
                    &&& after.source() == s
                    &&& after.source_done() == d
                    &&& after.in_flight() == q
                    &&& after.finished() == padded(self.finished(), q.len())
                    &&& after.in_flight_ids() == self.ids_after_fill(q.len())
                    &&& after.completion_order() == self.completion_order()
                },
                Ok(_) => self.scan_step(s, d, q, padded(self.finished(), q.len()), after, r),
            }
        }
    }

    fn poll(&mut self) -> (r: Poll<Option<Self::Item>, S::Error>) {
        let ghost n0 = self.queue@.len();
        let ghost pulled0 = self.pulled();
        let filled = fill_pool(&mut self.stream, &mut self.done, &mut self.queue, self.max);
        pad_outcomes(&mut self.results, self.queue.len());
        let ghost s1 = self.stream;
        let ghost d1 = self.done;
        let ghost q1 = self.queue@;
        let ghost r1 = self.results@;
        proof {
            let k = self.queue@.len() - n0;
            let old_all = self.resolved@ + self.ids@;
            self.ids@ = old(self).ids_after_fill(q1.len());
            assert(self.ids@ =~= old(self).ids@ + Seq::new(k as nat, |i: int| (pulled0 + i) as nat));
            let all = self.resolved@ + self.ids@;
            assert(all =~= old_all + Seq::new(k as nat, |i: int| (pulled0 + i) as nat));
            assert forall|i: int, j: int| 0 <= i < all.len() && 0 <= j < all.len() && i != j
                implies all[i] != all[j] by {
                if i < old_all.len() && j < old_all.len() {
                    assert(old_all[i] != old_all[j]);
                } else if i < old_all.len() {
                    assert(old_all[i] < pulled0);
                } else if j < old_all.len() {
                    assert(old_all[j] < pulled0);
                }
            };
            assert forall|i: int| 0 <= i < all.len() implies #[trigger] all[i] < self.pulled() by {
                if i < old_all.len() {
                    assert(old_all[i] < pulled0);
                }
            };
        }
        assert(takes_in(old(self).source(), old(self).source_done(), old(self).in_flight(), old(self).limit(), s1, d1, q1, filled));
        match filled {
            Err(e) => {
                return Err(e);
            },
            Ok(()) => {},
        }
        let mut i: usize = 0;
        while i < self.queue.len()
            invariant
                self.stream == s1,
                self.done == d1,
                self.max == old(self).max,
                self.base == old(self).base,
                self.produced@ == old(self).produced@,
                self.ids@ == old(self).ids_after_fill(q1.len()),
                self.resolved == old(self).resolved,
                self.inv(),
                self.queue@.len() == q1.len(),
                self.results@.len() == q1.len(),
                r1.len() == q1.len(),
                0 <= i <= q1.len(),
                forall|j: int| 0 <= j < i ==> #[trigger] slot_step(q1[j], r1[j], self.queue@[j], self.results@[j]),
                forall|j: int| i <= j < q1.len() ==> #[trigger] self.queue@[j] == q1[j],
                forall|j: int| i <= j < q1.len() ==> #[trigger] self.results@[j] == r1[j],
                takes_in(old(self).source(), old(self).source_done(), old(self).in_flight(), old(self).limit(), s1, d1, q1, filled),
                filled is Ok,
            decreases q1.len() - i,
        {
            if self.results[i].is_none() {
                let ghost q_before = self.queue@;
                let ghost res_before = self.results@;
                let mut f = self.queue.remove(i);
                let ghost f0 = f;
                let pr = f.poll();
                self.queue.insert(i, f);
                let o = match pr {
                    Ok(Async::Ready(v)) => Some(Ok(v)),
                    Ok(Async::NotReady) => None,
                    Err(e) => Some(Err(e)),
                };
                self.results.remove(i);
                self.results.insert(i, o);
                proof {
                    assert(self.queue@ =~= q_before.update(i as int, f));
                    assert(self.results@ =~= res_before.update(i as int, o));
                    assert(f0 == q1[i as int]);
                    assert(slot_step(q1[i as int], r1[i as int], self.queue@[i as int], self.results@[i as int]));
                }
            } else {
                assert(slot_step(q1[i as int], r1[i as int], self.queue@[i as int], self.results@[i as int]));
            }
            i = i + 1;
        }
        let ghost qm = self.queue@;
        let ghost rm = self.results@;
        let ghost im = self.ids@;
        let ghost om = self.resolved@;
        assert(all_stepped(q1, r1, qm, rm));
        let mut k: usize = 0;
        while k < self.results.len() && self.results[k].is_none()
            invariant
                self.results@ == rm,
                0 <= k <= rm.len(),
                forall|j: int| 0 <= j < k ==> #[trigger] rm[j] is None,
            decreases rm.len() - k,
        {
            k = k + 1;
        }
        if k == self.results.len() {
            proof {
                assert forall|j: int| 0 <= j < rm.len() implies #[trigger] rm[j] is None by {};
            }
            if self.queue.len() == 0 && self.done {
                assert(handed_out(qm, rm, im, om, d1, self.in_flight(), self.finished(), self.in_flight_ids(), self.completion_order(), Ok(Async::Ready(None))));
                assert(old(self).scan_step(s1, d1, q1, r1, *self, Ok(Async::Ready(None))));
                return Ok(Async::Ready(None));
            } else {
                assert(handed_out(qm, rm, im, om, d1, self.in_flight(), self.finished(), self.in_flight_ids(), self.completion_order(), Ok(Async::NotReady)));
                assert(old(self).scan_step(s1, d1, q1, r1, *self, Ok(Async::NotReady)));
                return Ok(Async::NotReady);
            }
        }
        assert(first_finished(rm, k as int));
        let _ = self.queue.remove(k);
        let o = self.results.remove(k);
        proof {
            assert(self.queue@ =~= qm.remove(k as int));
            assert(self.results@ =~= rm.remove(k as int));
            lemma_move_id(self.resolved@, self.ids@, k as int, self.pulled() as nat);
            let id = self.ids@[k as int];
            self.resolved@ = self.resolved@.push(id);
            self.ids@ = self.ids@.remove(k as int);
        }
        match o {
            Some(Ok(v)) => {
                proof {
                    self.produced@ = self.produced@.push(v);
                }
                assert(handed_out(qm, rm, im, om, d1, self.in_flight(), self.finished(), self.in_flight_ids(), self.completion_order(), Ok(Async::Ready(Some(v)))));
                assert(old(self).scan_step(s1, d1, q1, r1, *self, Ok(Async::Ready(Some(v)))));
                Ok(Async::Ready(Some(v)))
            },
            Some(Err(e)) => {
                assert(handed_out(qm, rm, im, om, d1, self.in_flight(), self.finished(), self.in_flight_ids(), self.completion_order(), Err(e)));
                assert(old(self).scan_step(s1, d1, q1, r1, *self, Err(e)));
                Err(e)
            },
            None => Ok(Async::NotReady),
        }
    }
}

/// Unordered buffering never has more than `limit` futures in flight, and
/// every future pulled from the source either is still in flight or has
/// resolved exactly once: the positions in the completion order and those in
/// flight together are each pulled position exactly once. Each advance that
/// hands out an outcome appends the position of the future it came from to
/// the completion order (see `handed_out`), so once nothing is in flight the
/// completion order holds every pulled position exactly once.
pub proof fn lemma_buffer_unordered_each_once<S: Stream>(b: BufferUnordered<S>)
    where S::Item: Future<Error = S::Error>,
    requires
        b.inv(),
    ensures
        b.in_flight().len() <= b.limit(),
        (b.completion_order() + b.in_flight_ids()).len() == b.pulled(),
        (b.completion_order() + b.in_flight_ids()).no_duplicates(),
        forall|i: int| 0 <= i < b.pulled() ==> #[trigger] (b.completion_order() + b.in_flight_ids())[i] < b.pulled(),
        b.in_flight().len() == 0 ==> {
            &&& b.completion_order().len() == b.pulled()
            &&& b.completion_order().no_duplicates()
            &&& forall|i: int| 0 <= i < b.pulled() ==> #[trigger] b.completion_order()[i] < b.pulled()
        },
{
    if b.in_flight().len() == 0 {
        assert(b.completion_order() + b.in_flight_ids() =~= b.completion_order());
    }
}

} // verus!
