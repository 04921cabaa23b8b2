use vstd::prelude::*;
use crate::future::Future;
use crate::poll::{Async, Poll, is_item, item_of};
use crate::stream::{Stream, steps};

verus! {

/// A stream that drops the items of its inner stream while the future
/// `pred(&x)` resolves to `true`, and from the first item for which it
/// resolves to `false` on hands out every item. Errors of the inner stream
/// and of the predicate's futures are passed through.
///
/// One advance drops at most `u64::MAX` items before it reports that the
/// caller must wait.
#[verifier::reject_recursive_types(R)]
pub struct SkipWhile<S: Stream, P, R> where
    P: Fn(&S::Item) -> R,
    R: Future<Item = bool, Error = S::Error>,
 {
    stream: S,
    pred: P,
    pending: Option<(S::Item, R)>,
    done_skipping: bool,
    produced: Ghost<Seq<S::Item>>,
}

/// What skipping does over at most `fuel` events while it still skips, from
/// inner stream `s` and the item under test `pend` to `(s2, pend2, done2)`,
/// returning `r`.
pub open spec fn skip_while_run<S: Stream, P, R>(
    p: P,
    s: S,
    pend: Option<(S::Item, R)>,
    fuel: nat,
    s2: S,
    pend2: Option<(S::Item, R)>,
    done2: bool,
    r: Poll<Option<S::Item>, S::Error>,
) -> bool where
    P: Fn(&S::Item) -> R,
    R: Future<Item = bool, Error = S::Error>,
    decreases fuel,
{
    if fuel == 0 {
        s2 == s && pend2 == pend && !done2 && r == Ok::<Async<Option<S::Item>>, S::Error>(Async::NotReady)
    } else {
        match pend {
            None => exists|s1: S, rs: Poll<Option<S::Item>, S::Error>| #[trigger] steps(s, s1, rs) && match rs {
                Ok(Async::Ready(Some(x))) => exists|fu: R| #[trigger] p.ensures((&x,), fu)
                    && skip_while_run(p, s1, Some((x, fu)), (fuel - 1) as nat, s2, pend2, done2, r),
                _ => s2 == s1 && pend2 is None && !done2 && r == rs,
            },
            Some((x, fu)) => exists|fu1: R, rf: Poll<bool, S::Error>| #[trigger] fu.polled(fu1, rf) && match rf {
                Ok(Async::Ready(true)) => skip_while_run(p, s, None, (fuel - 1) as nat, s2, pend2, done2, r),
                Ok(Async::Ready(false)) => s2 == s && pend2 is None && done2
                    && r == Ok::<Async<Option<S::Item>>, S::Error>(Async::Ready(Some(x))),
                Ok(Async::NotReady) => s2 == s && pend2 == Some((x, fu1)) && !done2
                    && r == Ok::<Async<Option<S::Item>>, S::Error>(Async::NotReady),
                Err(e) => s2 == s && pend2 is None && !done2 && r == Err::<Async<Option<S::Item>>, S::Error>(e),
            },
        }
    }
}

/// Whether `p` may be called on every item and always returns a well-formed
/// future.
pub open spec fn tests_well<S: Stream, P, R>(p: P, s: S) -> bool where
    P: Fn(&S::Item) -> R,
    R: Future<Item = bool, Error = S::Error>,
{
    &&& forall|x: &S::Item| #[trigger] p.requires((x,))
    &&& forall|x: &S::Item, fu: R| #[trigger] p.ensures((x,), fu) ==> fu.inv()
}

/// Drops the leading items of `stream` for which `pred` resolves to `true`.
pub fn new<S: Stream, P, R>(stream: S, pred: P) -> (sw: SkipWhile<S, P, R>) where
    P: Fn(&S::Item) -> R,
    R: Future<Item = bool, Error = S::Error>,
    requires
        stream.inv(),
        tests_well(pred, stream),
    ensures
        sw.inner() == stream,
        sw.predicate() == pred,
        sw.under_test() is None,
        !sw.is_through(),
        sw.produced().len() == 0,
        sw.inv(),
{
    SkipWhile { stream, pred, pending: None, done_skipping: false, produced: Ghost(Seq::empty()) }
}

impl<S: Stream, P, R> SkipWhile<S, P, R> where
    P: Fn(&S::Item) -> R,
    R: Future<Item = bool, Error = S::Error>,
 {
    /// The wrapped stream.
    pub closed spec fn inner(&self) -> S {
        self.stream
    }

    /// The predicate.
    pub closed spec fn predicate(&self) -> P {
        self.pred
    }

    /// The item whose test is still running, with its future.
    pub closed spec fn under_test(&self) -> Option<(S::Item, R)> {
        self.pending
    }

    /// Whether skipping is over and every item is handed out.
    pub closed spec fn is_through(&self) -> bool {
        self.done_skipping
    }
}

impl<S: Stream, P, R> Stream for SkipWhile<S, P, R> where
    P: Fn(&S::Item) -> R,
    R: Future<Item = bool, Error = S::Error>,
 {
    type Item = S::Item;
    type Error = S::Error;

    closed spec fn produced(&self) -> Seq<S::Item> {
        self.produced@
    }

    open spec fn inv(&self) -> bool {
        &&& self.inner().inv()
        &&& tests_well(self.predicate(), self.inner())
        &&& self.under_test() matches Some((_, fu)) ==> fu.inv()
        &&& self.is_through() ==> self.under_test() is None
    }

    open spec fn polled(&self, after: Self, r: Poll<Option<S::Item>, S::Error>) -> bool {
        &&& after.predicate() == self.predicate()
        &&& if self.is_through() {
            &&& after.is_through()
            &&& after.under_test() is None
            &&& steps(self.inner(), after.inner(), r)
        } else {
            skip_while_run(
                self.predicate(),
                self.inner(),
                self.under_test(),
                u64::MAX as nat,
                after.inner(),
                after.under_test(),
                after.is_through(),
                r,
            )
        }
    }

    fn poll(&mut self) -> (r: Poll<Option<S::Item>, S::Error>) {
        if self.done_skipping {
            let r = self.stream.poll();
            proof {
                if is_item(r) {
                    self.produced@ = self.produced@.push(item_of(r));
                }
            }
            return r;
        }
        let ghost pred0 = self.pred;
        let ghost s0 = self.stream;
        let ghost q0 = self.pending;
        let mut fuel: u64 = u64::MAX;
        assert forall|x: &S::Item| #[trigger] pred0.requires((x,)) by {
            assert(old(self).predicate().requires((x,)));
        };
        assert forall|x: &S::Item, fu: R| #[trigger] pred0.ensures((x,), fu) implies fu.inv() by {
            assert(old(self).predicate().ensures((x,), fu));
        };
        loop
            invariant
                self.pred == pred0,
                pred0 == old(self).pred,
                s0 == old(self).stream,
                q0 == old(self).pending,
                !self.done_skipping,
                !old(self).done_skipping,
                self.produced == old(self).produced,
                self.stream.inv(),
                forall|x: &S::Item| #[trigger] pred0.requires((x,)),
                forall|x: &S::Item, fu: R| #[trigger] pred0.ensures((x,), fu) ==> fu.inv(),
                self.pending matches Some((_, fu)) ==> fu.inv(),
                forall|s2: S, q2: Option<(S::Item, R)>, d2: bool, r2: Poll<Option<S::Item>, S::Error>|
                    #[trigger] skip_while_run(pred0, self.stream, self.pending, fuel as nat, s2, q2, d2, r2)
                        ==> skip_while_run(pred0, s0, q0, u64::MAX as nat, s2, q2, d2, r2),
            decreases fuel,
        {
            if fuel == 0 {
                assert(skip_while_run(pred0, self.stream, self.pending, fuel as nat, self.stream, self.pending, false, Ok(Async::NotReady)));
                return Ok(Async::NotReady);
            }
            let ghost fuel0 = fuel;
            fuel = fuel - 1;
            let ghost cur_s = self.stream;
            let ghost cur_q = self.pending;
            match self.pending.take() {
                None => {
                    let rs = self.stream.poll();
                    assert(steps(cur_s, self.stream, rs));
                    match rs {
                        Ok(Async::Ready(Some(x))) => {
                            let fu = (self.pred)(&x);
                            assert(pred0.ensures((&x,), fu));
                            self.pending = Some((x, fu));
                            assert forall|s2: S, q2: Option<(S::Item, R)>, d2: bool, r2: Poll<Option<S::Item>, S::Error>|
                                #[trigger] skip_while_run(pred0, self.stream, self.pending, fuel as nat, s2, q2, d2, r2)
                                    implies skip_while_run(pred0, s0, q0, u64::MAX as nat, s2, q2, d2, r2) by {
                                assert(skip_while_run(pred0, cur_s, cur_q, fuel0 as nat, s2, q2, d2, r2));
                            };
                        },
                        _ => {
                            assert(skip_while_run(pred0, cur_s, cur_q, fuel0 as nat, self.stream, None, false, rs));
                            return rs;
                        },
                    }
                },
                Some((x, fu)) => {
                    let mut fu = fu;
                    let ghost fu0 = fu;
                    let rf = fu.poll();
                    assert(fu0.polled(fu, rf));
                    match rf {
                        Ok(Async::Ready(true)) => {
                            assert forall|s2: S, q2: Option<(S::Item, R)>, d2: bool, r2: Poll<Option<S::Item>, S::Error>|
                                #[trigger] skip_while_run(pred0, self.stream, self.pending, fuel as nat, s2, q2, d2, r2)
                                    implies skip_while_run(pred0, s0, q0, u64::MAX as nat, s2, q2, d2, r2) by {
                                assert(skip_while_run(pred0, cur_s, cur_q, fuel0 as nat, s2, q2, d2, r2));
                            };
                        },
                        Ok(Async::Ready(false)) => {
                            self.done_skipping = true;
                            let ghost xg = x;
                            proof {
                                self.produced@ = self.produced@.push(xg);
                            }
                            assert(skip_while_run(pred0, cur_s, cur_q, fuel0 as nat, self.stream, None, true, Ok(Async::Ready(Some(xg)))));
                            return Ok(Async::Ready(Some(x)));
                        },
                        Ok(Async::NotReady) => {
                            let ghost xg = x;
                            self.pending = Some((x, fu));
                            assert(skip_while_run(pred0, cur_s, cur_q, fuel0 as nat, self.stream, self.pending, false, Ok(Async::NotReady)));
                            return Ok(Async::NotReady);
                        },
                        Err(e) => {
                            assert(skip_while_run(pred0, cur_s, cur_q, fuel0 as nat, self.stream, None, false, Err(e)));
                            return Err(e);
                        },
                    }
                },
            }
        }
    }
}

} // verus!
