use vstd::prelude::*;
use crate::poll::{Async, Poll};
use crate::stream::{Stream, lemma_skip_push, steps};

verus! {

/// A stream of pairs: the `i`-th item of the first stream with the `i`-th item
/// of the second. It ends as soon as either side ends; an error of either
/// side is reported, drops any item waiting for its partner, and ends it too.
pub struct Zip<S1: Stream, S2: Stream<Error = S1::Error>> {
    a: S1,
    b: S2,
    buf_a: Option<S1::Item>,
    buf_b: Option<S2::Item>,
    done: bool,
    produced: Ghost<Seq<(S1::Item, S2::Item)>>,
    /// How many items each side had handed out before the zip began.
    base: Ghost<(nat, nat)>,
}

/// Zips `a` with `b`.
pub fn new<S1: Stream, S2: Stream<Error = S1::Error>>(a: S1, b: S2) -> (z: Zip<S1, S2>)
    requires
        a.inv(),
        b.inv(),
    ensures
        z.first() == a,
        z.second() == b,
        z.first_buffered() is None,
        z.second_buffered() is None,
        !z.is_done(),
        z.produced().len() == 0,
        z.first_base() == a.produced().len(),
        z.second_base() == b.produced().len(),
        z.inv(),
{
    Zip {
        a,
        b,
        buf_a: None,
        buf_b: None,
        done: false,
        produced: Ghost(Seq::empty()),
        base: Ghost((a.produced().len(), b.produced().len())),
    }
}

impl<S1: Stream, S2: Stream<Error = S1::Error>> Zip<S1, S2> {
    /// The first stream.
    pub closed spec fn first(&self) -> S1 {
        self.a
    }

    /// The second stream.
    pub closed spec fn second(&self) -> S2 {
        self.b
    }

    /// The item of the first stream that waits for its partner.
    pub closed spec fn first_buffered(&self) -> Option<S1::Item> {
        self.buf_a
    }

    /// The item of the second stream that waits for its partner.
    pub closed spec fn second_buffered(&self) -> Option<S2::Item> {
        self.buf_b
    }

    /// Whether the zipped stream has ended or failed.
    pub closed spec fn is_done(&self) -> bool {
        self.done
    }

    /// The first stream's items that came before the zip began.
    pub closed spec fn first_base(&self) -> nat {
        self.base@.0
    }

    /// The second stream's items that came before the zip began.
    pub closed spec fn second_base(&self) -> nat {
        self.base@.1
    }

    /// The first side's part in an advance, leaving `got` in its slot: the
    /// slot already held it and the stream was left alone, or the slot was
    /// empty and the stream handed it out now, or made the caller wait.
    pub open spec fn first_side(&self, after: Self, got: Option<S1::Item>) -> bool {
        match got {
            Some(x) => {
                ||| self.first_buffered() == Some(x) && after.first() == self.first()
                ||| self.first_buffered() is None
                    && steps(self.first(), after.first(), Ok(Async::Ready(Some(x))))
            },
            None => {
                &&& self.first_buffered() is None
                &&& steps(self.first(), after.first(), Ok(Async::NotReady))
            },
        }
    }

    /// The second side's part in an advance, as `first_side` is the first's.
    pub open spec fn second_side(&self, after: Self, got: Option<S2::Item>) -> bool {
        match got {
            Some(y) => {
                ||| self.second_buffered() == Some(y) && after.second() == self.second()
                ||| self.second_buffered() is None
                    && steps(self.second(), after.second(), Ok(Async::Ready(Some(y))))
            },
            None => {
                &&& self.second_buffered() is None
                &&& steps(self.second(), after.second(), Ok(Async::NotReady))
            },
        }
    }

    /// Whether the first side did its part in an advance, whatever it left
    /// in its slot.
    pub open spec fn first_moved(&self, after: Self) -> bool {
        exists|got: Option<S1::Item>| #[trigger] self.first_side(after, got)
    }

    /// Whether the first side, with an empty slot, reported `r` and thereby
    /// ended the zip while the second side was left alone.
    pub open spec fn first_stops(&self, after: Self, r: Poll<Option<S1::Item>, S1::Error>) -> bool {
        &&& self.first_buffered() is None
        &&& steps(self.first(), after.first(), r)
        &&& after.second() == self.second()
        &&& after.first_buffered() == self.first_buffered()
        &&& after.second_buffered() == self.second_buffered()
    }

    /// Whether the first side did its part and then the second side, with an
    /// empty slot, reported `r` and thereby ended the zip.
    pub open spec fn second_stops(&self, after: Self, r: Poll<Option<S2::Item>, S1::Error>) -> bool {
        &&& self.first_side(after, after.first_buffered())
        &&& self.second_buffered() is None
        &&& steps(self.second(), after.second(), r)
        &&& after.second_buffered() == self.second_buffered()
    }

    /// The moves of one advance, apart from the bookkeeping of where each
    /// side's history began.
    pub open spec fn step(&self, after: Self, r: Poll<Option<(S1::Item, S2::Item)>, S1::Error>) -> bool {
        if self.is_done() {
            &&& r == Ok::<Async<Option<(S1::Item, S2::Item)>>, S1::Error>(Async::Ready(None))
            &&& after == *self
        } else {
            match r {
                Ok(Async::Ready(Some((x, y)))) => {
                    &&& self.first_side(after, Some(x))
                    &&& self.second_side(after, Some(y))
                    &&& after.first_buffered() is None
                    &&& after.second_buffered() is None
                    &&& !after.is_done()
                },
                Ok(Async::NotReady) => {
                    &&& self.first_side(after, after.first_buffered())
                    &&& self.second_side(after, after.second_buffered())
                    &&& !(after.first_buffered() is Some && after.second_buffered() is Some)
                    &&& !after.is_done()
                },
                Ok(Async::Ready(None)) => {
                    &&& after.is_done()
                    &&& (self.first_stops(after, Ok(Async::Ready(None)))
                        || self.second_stops(after, Ok(Async::Ready(None))))
                },
                Err(e) => {
                    &&& after.is_done()
                    &&& after.first_buffered() is None
                    &&& after.second_buffered() is None
                    &&& ({
                        ||| self.first_buffered() is None && steps(self.first(), after.first(), Err(e))
                            && after.second() == self.second()
                        ||| self.first_moved(after) && self.second_buffered() is None
                            && steps(self.second(), after.second(), Err(e))
                    })
                },
            }
        }
    }
}

impl<S1: Stream, S2: Stream<Error = S1::Error>> Stream for Zip<S1, S2> {
    type Item = (S1::Item, S2::Item);
    type Error = S1::Error;

    closed spec fn produced(&self) -> Seq<(S1::Item, S2::Item)> {
        self.produced@
    }

    open spec fn inv(&self) -> bool {
        let n = self.produced().len();
        let pa = self.first().produced();
        let pb = self.second().produced();
        let ba = self.first_base();
        let bb = self.second_base();
        &&& self.first().inv()
        &&& self.second().inv()
        &&& ba + n <= pa.len()
        &&& bb + n <= pb.len()
        &&& forall|i: int| 0 <= i < n ==> #[trigger] self.produced()[i] == (pa[ba + i], pb[bb + i])
        &&& !self.is_done() ==> {
            &&& pa.len() == ba + n + (if self.first_buffered() is Some { 1int } else { 0 })
            &&& pb.len() == bb + n + (if self.second_buffered() is Some { 1int } else { 0 })
            &&& self.first_buffered() matches Some(x) ==> pa.last() == x
            &&& self.second_buffered() matches Some(y) ==> pb.last() == y
        }
    }

    open spec fn polled(&self, after: Self, r: Poll<Option<Self::Item>, S1::Error>) -> bool {
        &&& after.first_base() == self.first_base()
        &&& after.second_base() == self.second_base()
        &&& self.step(after, r)
    }

    fn poll(&mut self) -> (r: Poll<Option<Self::Item>, S1::Error>) {
        if self.done {
            return Ok(Async::Ready(None));
        }
        if self.buf_a.is_none() {
            match self.a.poll() {
                Ok(Async::Ready(Some(x))) => {
                    self.buf_a = Some(x);
                },
                Ok(Async::Ready(None)) => {
                    self.done = true;
                    return Ok(Async::Ready(None));
                },
                Ok(Async::NotReady) => {},
                Err(e) => {
                    self.done = true;
                    self.buf_b = None;
                    return Err(e);
                },
            }
        }
        if self.buf_b.is_none() {
            match self.b.poll() {
                Ok(Async::Ready(Some(y))) => {
                    self.buf_b = Some(y);
                },
                Ok(Async::Ready(None)) => {
                    self.done = true;
                    return Ok(Async::Ready(None));
                },
                Ok(Async::NotReady) => {},
                Err(e) => {
                    self.done = true;
                    let ghost held = self.buf_a;
                    self.buf_a = None;
                    assert(old(self).first_side(*self, held));
                    return Err(e);
                },
            }
        }
        if self.buf_a.is_some() && self.buf_b.is_some() {
            let x = self.buf_a.take().unwrap();
            let y = self.buf_b.take().unwrap();
            proof {
                let n = self.produced@.len();
                self.produced@ = self.produced@.push((x, y));
                assert(self.produced@[n as int] == (x, y));
            }
            Ok(Async::Ready(Some((x, y))))
        } else {
            Ok(Async::NotReady)
        }
    }
}

/// Every pair a zipped stream yields joins items pulled at the same position
/// from both sides: the `i`-th pair holds the `i`-th item each side handed out
/// since the zip began.
pub proof fn lemma_zip_pairs_correspond<S1: Stream, S2: Stream<Error = S1::Error>>(
    z: Zip<S1, S2>,
    i: int,
)
    requires
        z.inv(),
        0 <= i < z.produced().len(),
    ensures
        z.produced()[i].0 == z.first().produced()[z.first_base() + i],
        z.produced()[i].1 == z.second().produced()[z.second_base() + i],
{
}

/// When a zipped stream that had not ended reports its end, one side has just
/// reported its own end, and every item that side handed out since the zip
/// began has been paired: the zip yielded exactly as many pairs as the
/// shorter side held.
pub proof fn lemma_zip_ends_with_shorter<S1: Stream, S2: Stream<Error = S1::Error>>(
    z: Zip<S1, S2>,
    after: Zip<S1, S2>,
)
    requires
        z.inv(),
        !z.is_done(),
        steps(z, after, Ok(Async::Ready(None))),
    ensures
        after.produced() == z.produced(),
        ({
            ||| steps(z.first(), after.first(), Ok(Async::Ready(None)))
                && after.first().produced().len() == after.first_base() + after.produced().len()
                && after.second().produced().len() >= after.second_base() + after.produced().len()
            ||| steps(z.second(), after.second(), Ok(Async::Ready(None)))
                && after.second().produced().len() == after.second_base() + after.produced().len()
                && after.first().produced().len() >= after.first_base() + after.produced().len()
        }),
{
}

} // verus!
