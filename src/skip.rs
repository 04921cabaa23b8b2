use vstd::prelude::*;
use crate::poll::{Async, Poll, is_item, item_of};
use crate::stream::{Stream, steps};

verus! {

/// A stream that drops the first `n` items of its inner stream and then
/// hands out the rest. Errors are passed through while skipping.
pub struct Skip<S: Stream> {
    stream: S,
    remaining: u64,
    produced: Ghost<Seq<S::Item>>,
}

/// What skipping does from inner stream `s` with `n` items still to drop,
/// to inner stream `s2` with `n2` still to drop, returning `r`: it drops
/// items while any are left to drop, and then passes one step through.
pub open spec fn skip_run<S: Stream>(s: S, n: nat, s2: S, n2: nat, r: Poll<Option<S::Item>, S::Error>) -> bool
    decreases n,
{
    if n == 0 {
        steps(s, s2, r) && n2 == 0
    } else {
        exists|s1: S, rs: Poll<Option<S::Item>, S::Error>| #[trigger] steps(s, s1, rs) && match rs {
            Ok(Async::Ready(Some(_))) => skip_run(s1, (n - 1) as nat, s2, n2, r),
            _ => s2 == s1 && n2 == n && r == rs,
        }
    }
}

/// Drops the next `amt` items of `stream`.
pub fn new<S: Stream>(stream: S, amt: u64) -> (s: Skip<S>)
    ensures
        s.inner() == stream,
        s.to_skip() == amt,
        s.produced().len() == 0,
{
    Skip { stream, remaining: amt, produced: Ghost(Seq::empty()) }
}

impl<S: Stream> Skip<S> {
    /// The wrapped stream.
    pub closed spec fn inner(&self) -> S {
        self.stream
    }

    /// How many items are still to be dropped.
    pub closed spec fn to_skip(&self) -> nat {
        self.remaining as nat
    }
}

impl<S: Stream> Stream for Skip<S> {
    type Item = S::Item;
    type Error = S::Error;

    closed spec fn produced(&self) -> Seq<S::Item> {
        self.produced@
    }

    open spec fn inv(&self) -> bool {
        self.inner().inv()
    }

    open spec fn polled(&self, after: Self, r: Poll<Option<S::Item>, S::Error>) -> bool {
        skip_run(self.inner(), self.to_skip(), after.inner(), after.to_skip(), r)
    }

    fn poll(&mut self) -> (r: Poll<Option<S::Item>, S::Error>) {
        let ghost s0 = self.stream;
        let ghost n0 = self.remaining as nat;
        while self.remaining > 0
            invariant
                self.stream.inv(),
                self.produced == old(self).produced,
                s0 == old(self).stream,
                n0 == old(self).remaining as nat,
                forall|s2: S, n2: nat, r2: Poll<Option<S::Item>, S::Error>|
                    #[trigger] skip_run(self.stream, self.remaining as nat, s2, n2, r2)
                        ==> skip_run(s0, n0, s2, n2, r2),
            decreases self.remaining,
        {
            let ghost cur_s = self.stream;
            let ghost cur_n = self.remaining as nat;
            let rs = self.stream.poll();
            assert(steps(cur_s, self.stream, rs));
            match rs {
                Ok(Async::Ready(Some(_))) => {
                    self.remaining = self.remaining - 1;
                    assert forall|s2: S, n2: nat, r2: Poll<Option<S::Item>, S::Error>|
                        #[trigger] skip_run(self.stream, self.remaining as nat, s2, n2, r2)
                            implies skip_run(s0, n0, s2, n2, r2) by {
                        assert(skip_run(cur_s, cur_n, s2, n2, r2));
                    };
                },
                _ => {
                    assert(skip_run(cur_s, cur_n, self.stream, cur_n, rs));
                    return rs;
                },
            }
        }
        let ghost cur_s = self.stream;
        let r = self.stream.poll();
        proof {
            assert(skip_run(cur_s, 0, self.stream, 0, r));
            if is_item(r) {
                self.produced@ = self.produced@.push(item_of(r));
            }
        }
        r
    }
}

} // verus!
