use vstd::prelude::*;
use crate::poll::{Async, Poll};
use crate::stream::{Stream, lemma_skip_push, steps};

verus! {

/// An item of a merged stream, tagged with the side it came from.
pub enum MergedItem<I1, I2> {
    /// An item of the first stream.
    First(I1),
    /// An item of the second stream.
    Second(I2),
}

/// The items of the first stream, in the order they appear in `s`.
pub open spec fn firsts<I1, I2>(s: Seq<MergedItem<I1, I2>>) -> Seq<I1>
    decreases s.len(),
{
    if s.len() == 0 {
        Seq::empty()
    } else {
        let rest = firsts(s.drop_last());
        match s.last() {
            MergedItem::First(x) => rest.push(x),
            MergedItem::Second(_) => rest,
        }
    }
}

/// The items of the second stream, in the order they appear in `s`.
pub open spec fn seconds<I1, I2>(s: Seq<MergedItem<I1, I2>>) -> Seq<I2>
    decreases s.len(),
{
    if s.len() == 0 {
        Seq::empty()
    } else {
        let rest = seconds(s.drop_last());
        match s.last() {
            MergedItem::First(_) => rest,
            MergedItem::Second(y) => rest.push(y),
        }
    }
}

/// A stream that yields the items of two streams as they become available,
/// always asking the first stream before the second.
pub struct Merge<S1: Stream, S2: Stream<Error = S1::Error>> {
    a: S1,
    b: S2,
    a_done: bool,
    b_done: bool,
    produced: Ghost<Seq<MergedItem<S1::Item, S2::Item>>>,
    /// How many items each side had handed out before the merge began.
    base: Ghost<(nat, nat)>,
}

/// One side's part in an advance that took no item from it: it had already
/// ended and was left alone, it ended now, or it made the caller wait.
pub open spec fn side_quiet<S: Stream>(done: bool, s: S, done2: bool, s2: S) -> bool {
    if done {
        done2 && s2 == s
    } else {
        ||| steps(s, s2, Ok(Async::Ready(None))) && done2
        ||| steps(s, s2, Ok(Async::NotReady)) && !done2
    }
}

/// Merges `a` and `b` into one stream.
pub fn new<S1: Stream, S2: Stream<Error = S1::Error>>(a: S1, b: S2) -> (m: Merge<S1, S2>)
    requires
        a.inv(),
        b.inv(),
    ensures
        m.first() == a,
        m.second() == b,
        !m.first_done(),
        !m.second_done(),
        m.produced().len() == 0,
        m.first_base() == a.produced().len(),
        m.second_base() == b.produced().len(),
        m.inv(),
{
    let m = Merge { a, b, a_done: false, b_done: false, produced: Ghost(Seq::empty()),
        base: Ghost((a.produced().len(), b.produced().len())) };
    assert(firsts(m.produced()) =~= m.first().produced().skip(m.first_base() as int));
    assert(seconds(m.produced()) =~= m.second().produced().skip(m.second_base() as int));
    m
}

impl<S1: Stream, S2: Stream<Error = S1::Error>> Merge<S1, S2> {
    /// The first stream.
    pub closed spec fn first(&self) -> S1 {
        self.a
    }

    /// The second stream.
    pub closed spec fn second(&self) -> S2 {
        self.b
    }

    /// The first stream's items that came before the merge began.
    pub closed spec fn first_base(&self) -> nat {
        self.base@.0
    }

    /// The second stream's items that came before the merge began.
    pub closed spec fn second_base(&self) -> nat {
        self.base@.1
    }

    /// Whether the first stream has ended.
    pub closed spec fn first_done(&self) -> bool {
        self.a_done
    }

    /// Whether the second stream has ended.
    pub closed spec fn second_done(&self) -> bool {
        self.b_done
    }

    /// The moves of one advance, apart from the bookkeeping of where each
    /// side's history began.
    pub open spec fn step(&self, after: Self, r: Poll<Option<MergedItem<S1::Item, S2::Item>>, S1::Error>) -> bool {
        match r {
            Ok(Async::Ready(Some(MergedItem::First(x)))) => {
                &&& !self.first_done()
                &&& steps(self.first(), after.first(), Ok(Async::Ready(Some(x))))
                &&& after.second() == self.second()
                &&& after.first_done() == self.first_done()
                &&& after.second_done() == self.second_done()
            },
            Ok(Async::Ready(Some(MergedItem::Second(y)))) => {
                &&& side_quiet(self.first_done(), self.first(), after.first_done(), after.first())
                &&& !self.second_done()
                &&& steps(self.second(), after.second(), Ok(Async::Ready(Some(y))))
                &&& after.second_done() == self.second_done()
            },
            Err(e) => {
                ||| {
                    &&& !self.first_done()
                    &&& steps(self.first(), after.first(), Err(e))
                    &&& after.second() == self.second()
                    &&& after.first_done() == self.first_done()
                    &&& after.second_done() == self.second_done()
                }
                ||| {
                    &&& side_quiet(self.first_done(), self.first(), after.first_done(), after.first())
                    &&& !self.second_done()
                    &&& steps(self.second(), after.second(), Err(e))
                    &&& after.second_done() == self.second_done()
                }
            },
            Ok(Async::Ready(None)) => {
                &&& side_quiet(self.first_done(), self.first(), after.first_done(), after.first())
                &&& side_quiet(self.second_done(), self.second(), after.second_done(), after.second())
                &&& after.first_done() && after.second_done()
            },
            Ok(Async::NotReady) => {
                &&& side_quiet(self.first_done(), self.first(), after.first_done(), after.first())
                &&& side_quiet(self.second_done(), self.second(), after.second_done(), after.second())
                &&& !(after.first_done() && after.second_done())
            },
        }
    }
}

proof fn lemma_split_push<I1, I2>(s: Seq<MergedItem<I1, I2>>, m: MergedItem<I1, I2>)
    ensures
        firsts(s.push(m)) == (match m {
            MergedItem::First(x) => firsts(s).push(x),
            MergedItem::Second(_) => firsts(s),
        }),
        seconds(s.push(m)) == (match m {
            MergedItem::First(_) => seconds(s),
            MergedItem::Second(y) => seconds(s).push(y),
        }),
{
    assert(s.push(m).drop_last() =~= s);
}

impl<S1: Stream, S2: Stream<Error = S1::Error>> Stream for Merge<S1, S2> {
    type Item = MergedItem<S1::Item, S2::Item>;
    type Error = S1::Error;

    closed spec fn produced(&self) -> Seq<MergedItem<S1::Item, S2::Item>> {
        self.produced@
    }

    open spec fn inv(&self) -> bool {
        &&& self.first().inv()
        &&& self.second().inv()
        &&& self.first_base() <= self.first().produced().len()
        &&& self.second_base() <= self.second().produced().len()
        &&& firsts(self.produced()) == self.first().produced().skip(self.first_base() as int)
        &&& seconds(self.produced()) == self.second().produced().skip(self.second_base() as int)
    }

    open spec fn polled(&self, after: Self, r: Poll<Option<Self::Item>, S1::Error>) -> bool {
        &&& after.first_base() == self.first_base()
        &&& after.second_base() == self.second_base()
        &&& self.step(after, r)
    }

    fn poll(&mut self) -> (r: Poll<Option<Self::Item>, S1::Error>) {
        if !self.a_done {
            match self.a.poll() {
                Ok(Async::Ready(Some(x))) => {
                    proof {
                        lemma_skip_push(old(self).a.produced(), self.base@.0 as int, x);
                        lemma_split_push(self.produced@, MergedItem::First(x));
                        self.produced@ = self.produced@.push(MergedItem::First(x));
                    }
                    return Ok(Async::Ready(Some(MergedItem::First(x))));
                },
                Ok(Async::Ready(None)) => {
                    self.a_done = true;
                },
                Ok(Async::NotReady) => {},
                Err(e) => {
                    return Err(e);
                },
            }
        }
        if !self.b_done {
            match self.b.poll() {
                Ok(Async::Ready(Some(y))) => {
                    proof {
                        lemma_skip_push(old(self).b.produced(), self.base@.1 as int, y);
                        lemma_split_push(self.produced@, MergedItem::Second(y));
                        self.produced@ = self.produced@.push(MergedItem::Second(y));
                    }
                    return Ok(Async::Ready(Some(MergedItem::Second(y))));
                },
                Ok(Async::Ready(None)) => {
                    self.b_done = true;
                },
                Ok(Async::NotReady) => {},
                Err(e) => {
                    return Err(e);
                },
            }
        }
        if self.a_done && self.b_done {
            Ok(Async::Ready(None))
        } else {
            Ok(Async::NotReady)
        }
    }
}

/// When the first stream has not ended and any advance of it would hand out
/// an item, the merged stream yields the first stream's item, whatever the
/// second stream holds.
pub proof fn lemma_merge_prefers_first<S1: Stream, S2: Stream<Error = S1::Error>>(
    m: Merge<S1, S2>,
    after: Merge<S1, S2>,
    r: Poll<Option<MergedItem<S1::Item, S2::Item>>, S1::Error>,
)
    requires
        !m.first_done(),
        forall|a2: S1, ra: Poll<Option<S1::Item>, S1::Error>|
            #[trigger] steps(m.first(), a2, ra) ==> ra matches Ok(Async::Ready(Some(_))),
        m.polled(after, r),
    ensures
        r matches Ok(Async::Ready(Some(MergedItem::First(_)))),
        after.second() == m.second(),
{
    match r {
        Ok(Async::Ready(Some(MergedItem::First(_)))) => {},
        Ok(Async::Ready(Some(MergedItem::Second(_)))) | Ok(Async::Ready(None)) | Ok(Async::NotReady) => {
            assert(steps(m.first(), after.first(), Ok(Async::Ready(None)))
                || steps(m.first(), after.first(), Ok(Async::NotReady)));
        },
        Err(e) => {
            if steps(m.first(), after.first(), Err(e)) {
            } else {
                assert(steps(m.first(), after.first(), Ok(Async::Ready(None)))
                    || steps(m.first(), after.first(), Ok(Async::NotReady)));
            }
        },
    }
}

/// Merging keeps each side's own order: the items tagged as coming from a
/// side are exactly that side's items, in the order it produced them.
pub proof fn lemma_merge_keeps_order<S1: Stream, S2: Stream<Error = S1::Error>>(m: Merge<S1, S2>)
    requires
        m.inv(),
    ensures
        firsts(m.produced()) == m.first().produced().skip(m.first_base() as int),
        seconds(m.produced()) == m.second().produced().skip(m.second_base() as int),
{
}

} // verus!
