use vstd::prelude::*;
use crate::future::Future;
use crate::poll::{Async, Poll};
use crate::stream::{Stream, steps};

verus! {

/// The filling phase of a bounded pool: while fewer than `max` entries are
/// in flight and the source has not ended, pull from the source; each item
/// is appended to the pool, an end marks the source done, a wait stops the
/// phase, and an error stops it and is reported as `r`.
///
/// `(stream, done, pool)` is the state before, `(stream2, done2, pool2)`
/// the state after.
pub open spec fn takes_in<S: Stream>(
    stream: S,
    done: bool,
    pool: Seq<S::Item>,
    max: nat,
    stream2: S,
    done2: bool,
    pool2: Seq<S::Item>,
    r: Result<(), S::Error>,
) -> bool
    decreases (if pool.len() < max { max - pool.len() } else { 0 }),
{
    if done || pool.len() >= max {
        &&& stream2 == stream
        &&& done2 == done
        &&& pool2 == pool
        &&& r is Ok
    } else {
        exists|s: S, rs: Poll<Option<S::Item>, S::Error>| #[trigger] steps(stream, s, rs) && match rs {
            Ok(Async::Ready(Some(f))) => takes_in(s, false, pool.push(f), max, stream2, done2, pool2, r),
            Ok(Async::Ready(None)) => stream2 == s && done2 && pool2 == pool && r is Ok,
            Ok(Async::NotReady) => stream2 == s && !done2 && pool2 == pool && r is Ok,
            Err(e) => stream2 == s && done2 == done && pool2 == pool && r == Err::<(), S::Error>(e),
        }
    }
}

/// Whether every future that a stream of type `S` hands out from a
/// consistent state is itself consistent.
pub open spec fn hands_out_valid<S: Stream>() -> bool where S::Item: Future {
    forall|s: S, s2: S, f: S::Item| s.inv() && #[trigger] s.polled(s2, Ok(Async::Ready(Some(f)))) ==> f.inv()
}

/// Whether every future of `q` is consistent.
pub open spec fn all_valid<F: Future>(q: Seq<F>) -> bool {
    forall|i: int| 0 <= i < q.len() ==> #[trigger] q[i].inv()
}

/// Runs the filling phase on `stream`, `done` and `pool`.
pub(crate) fn fill_pool<S: Stream>(stream: &mut S, done: &mut bool, pool: &mut Vec<S::Item>, max: usize) -> (r: Result<(), S::Error>)
    where S::Item: Future,
    requires
        old(stream).inv(),
        hands_out_valid::<S>(),
        all_valid(old(pool)@),
    ensures
        final(stream).inv(),
        all_valid(final(pool)@),
        takes_in(*old(stream), *old(done), old(pool)@, max as nat, *final(stream), *final(done), final(pool)@, r),
        old(stream).produced().len() <= final(stream).produced().len(),
        final(pool)@ == old(pool)@ + final(stream).produced().subrange(
            old(stream).produced().len() as int,
            final(stream).produced().len() as int,
        ),
        old(pool)@.len() <= max ==> final(pool)@.len() <= max,
{
    let ghost s0 = *stream;
    let ghost d0 = *done;
    let ghost pool0 = pool@;
    while !*done && pool.len() < max
        invariant
            s0 == *old(stream),
            d0 == *old(done),
            pool0 == old(pool)@,
            stream.inv(),
            hands_out_valid::<S>(),
            all_valid(pool@),
            forall|s2: S, d2: bool, q2: Seq<S::Item>, r2: Result<(), S::Error>|
                #[trigger] takes_in(*stream, *done, pool@, max as nat, s2, d2, q2, r2)
                    ==> takes_in(s0, d0, pool0, max as nat, s2, d2, q2, r2),
            s0.produced().len() <= stream.produced().len(),
            pool@ == pool0 + stream.produced().subrange(s0.produced().len() as int, stream.produced().len() as int),
            pool0.len() <= max ==> pool@.len() <= max,
        decreases max - pool@.len(),
    {
        let ghost before_stream = *stream;
        let ghost before_pool = pool@;
        let ghost before_done = *done;
        let rs = stream.poll();
        assert(steps(before_stream, *stream, rs));
        assert(takes_in(before_stream, before_done, before_pool, max as nat, *stream, *done, pool@, Ok(()))
            ==> takes_in(s0, d0, pool0, max as nat, *stream, *done, pool@, Ok(())));
        match rs {
            Ok(Async::Ready(Some(f))) => {
                assert(before_stream.polled(*stream, Ok(Async::Ready(Some(f)))));
                assert(f.inv());
                pool.push(f);
                assert(pool@.last() == f);
                assert(pool@ =~= pool0 + stream.produced().subrange(s0.produced().len() as int, stream.produced().len() as int));
                assert forall|s2: S, d2: bool, q2: Seq<S::Item>, r2: Result<(), S::Error>|
                    #[trigger] takes_in(*stream, *done, pool@, max as nat, s2, d2, q2, r2)
                        implies takes_in(s0, d0, pool0, max as nat, s2, d2, q2, r2) by {
                    assert(takes_in(before_stream, before_done, before_pool, max as nat, s2, d2, q2, r2));
                };
            },
            Ok(Async::Ready(None)) => {
                *done = true;
                assert(takes_in(before_stream, before_done, before_pool, max as nat, *stream, true, pool@, Ok(())));
                return Ok(());
            },
            Ok(Async::NotReady) => {
                assert(takes_in(before_stream, before_done, before_pool, max as nat, *stream, false, pool@, Ok(())));
                return Ok(());
            },
            Err(e) => {
                assert(takes_in(before_stream, before_done, before_pool, max as nat, *stream, false, pool@, Err(e)));
                return Err(e);
            },
        }
    }
    assert(takes_in(*stream, *done, pool@, max as nat, *stream, *done, pool@, Ok(())));
    Ok(())
}

} // verus!
