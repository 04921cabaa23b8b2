use vstd::prelude::*;
use crate::poll::{Async, Poll};
use crate::stream::Stream;

verus! {

/// Why a message could not be handed to the receiver; the message comes back.
pub enum SendError<M> {
    /// The receiver has been released.
    Disconnected(M),
    /// An earlier message has not been taken yet.
    Full(M),
}

/// What a channel holds, as a plain value: the waiting message, which ends
/// are held, who is parked, and which wake-ups are due.
pub struct ChannelState<T, E> {
    pub slot: Option<Result<T, E>>,
    pub sender_open: bool,
    pub receiver_open: bool,
    pub rx_parked: bool,
    pub tx_parked: bool,
    pub rx_wake: bool,
    pub tx_wake: bool,
}

impl<T, E> ChannelState<T, E> {
    /// Empty slot, both ends open, nobody parked and no wake-up due.
    pub open spec fn is_fresh(self) -> bool {
        &&& self.slot is None
        &&& self.sender_open
        &&& self.receiver_open
        &&& !self.rx_parked
        &&& !self.tx_parked
        &&& !self.rx_wake
        &&& !self.tx_wake
    }

    /// What the receiver's advance returns from this state.
    pub open spec fn recv_result(self) -> Poll<Option<T>, E> {
        match self.slot {
            Some(Ok(x)) => Ok(Async::Ready(Some(x))),
            Some(Err(e)) => Err(e),
            None => if self.sender_open {
                Ok(Async::NotReady)
            } else {
                Ok(Async::Ready(None))
            },
        }
    }

    /// The state after the receiver's advance: a message is taken out of
    /// the slot, and a parked sender is due to be woken; with nothing to
    /// take from an open channel, the receiver parks.
    pub open spec fn after_recv(self) -> Self {
        match self.slot {
            Some(_) => ChannelState { slot: None, tx_parked: false, tx_wake: self.tx_wake || self.tx_parked, ..self },
            None => if self.sender_open {
                ChannelState { rx_parked: true, ..self }
            } else {
                self
            },
        }
    }

    /// What starting to send `msg` returns from this state.
    pub open spec fn send_result(self, msg: Result<T, E>) -> Result<(), SendError<Result<T, E>>> {
        if !self.receiver_open {
            Err(SendError::Disconnected(msg))
        } else if self.slot is Some {
            Err(SendError::Full(msg))
        } else {
            Ok(())
        }
    }

    /// The state after starting to send `msg`: when it is accepted it waits
    /// in the slot and a parked receiver is due to be woken.
    pub open spec fn after_send(self, msg: Result<T, E>) -> Self {
        if self.send_result(msg) is Ok {
            ChannelState { slot: Some(msg), rx_parked: false, rx_wake: self.rx_wake || self.rx_parked, ..self }
        } else {
            self
        }
    }

    /// What advancing a send in progress returns from this state.
    pub open spec fn send_poll_result(self) -> Poll<(), SendError<Result<T, E>>> {
        match self.slot {
            None => Ok(Async::Ready(())),
            Some(m) => if !self.receiver_open {
                Err(SendError::Disconnected(m))
            } else {
                Ok(Async::NotReady)
            },
        }
    }

    /// The state after advancing a send in progress: a message the released
    /// receiver never took is handed back; a send still waiting parks the
    /// sender.
    pub open spec fn after_send_poll(self) -> Self {
        match self.slot {
            None => self,
            Some(_) => if !self.receiver_open {
                ChannelState { slot: None, ..self }
            } else {
                ChannelState { tx_parked: true, ..self }
            },
        }
    }

    /// The state after the sender is released: a parked receiver is due to
    /// be woken, so that it sees the end.
    pub open spec fn after_drop_sender(self) -> Self {
        ChannelState { sender_open: false, rx_parked: false, rx_wake: self.rx_wake || self.rx_parked, ..self }
    }

    /// The state after the receiver is released: a parked sender is due to
    /// be woken, so that its send fails.
    pub open spec fn after_drop_receiver(self) -> Self {
        ChannelState { receiver_open: false, tx_parked: false, tx_wake: self.tx_wake || self.tx_parked, ..self }
    }
}

/// The state shared by the two ends of a single-slot channel: at most one
/// message waits in the slot, and each side may be parked waiting for the
/// other. A message is `Ok(item)` or `Err(error)`; the receiving end is a
/// stream of the items that reports the errors.
///
/// The operations decide; whoever holds the state performs the wake-ups that
/// `take_receiver_wake` and `take_sender_wake` report.
pub struct Channel<T, E> {
    slot: Option<Result<T, E>>,
    sender_open: bool,
    receiver_open: bool,
    rx_parked: bool,
    tx_parked: bool,
    rx_wake: bool,
    tx_wake: bool,
    produced: Ghost<Seq<T>>,
}

/// A channel with an empty slot, both ends open and nobody parked.
pub fn channel<T, E>() -> (c: Channel<T, E>)
    ensures
        c@.is_fresh(),
        c.produced().len() == 0,
{
    Channel {
        slot: None,
        sender_open: true,
        receiver_open: true,
        rx_parked: false,
        tx_parked: false,
        rx_wake: false,
        tx_wake: false,
        produced: Ghost(Seq::empty()),
    }
}

impl<T, E> View for Channel<T, E> {
    type V = ChannelState<T, E>;

    closed spec fn view(&self) -> ChannelState<T, E> {
        ChannelState {
            slot: self.slot,
            sender_open: self.sender_open,
            receiver_open: self.receiver_open,
            rx_parked: self.rx_parked,
            tx_parked: self.tx_parked,
            rx_wake: self.rx_wake,
            tx_wake: self.tx_wake,
        }
    }
}

impl<T, E> Channel<T, E> {
    /// Whether the sending end is still held.
    pub fn is_sender_open(&self) -> (r: bool)
        ensures
            r == self@.sender_open,
    {
        self.sender_open
    }

    /// Whether the receiving end is still held.
    pub fn is_receiver_open(&self) -> (r: bool)
        ensures
            r == self@.receiver_open,
    {
        self.receiver_open
    }

    /// Deposits `msg` in the slot, if the receiver is still held and the
    /// slot is empty; otherwise hands `msg` back with the reason.
    pub fn start_send(&mut self, msg: Result<T, E>) -> (r: Result<(), SendError<Result<T, E>>>)
        requires
            old(self)@.sender_open,
        ensures
            r == old(self)@.send_result(msg),
            final(self)@ == old(self)@.after_send(msg),
            final(self).produced() == old(self).produced(),
    {
        if !self.receiver_open {
            return Err(SendError::Disconnected(msg));
        }
        if self.slot.is_some() {
            return Err(SendError::Full(msg));
        }
        self.slot = Some(msg);
        if self.rx_parked {
            self.rx_parked = false;
            self.rx_wake = true;
        }
        Ok(())
    }

    /// Advances a send in progress: it completes once the receiver has taken
    /// the message, fails, handing the message back, if the receiver was
    /// released first, and otherwise parks the sender.
    pub fn poll_send(&mut self) -> (r: Poll<(), SendError<Result<T, E>>>)
        ensures
            r == old(self)@.send_poll_result(),
            final(self)@ == old(self)@.after_send_poll(),
            final(self).produced() == old(self).produced(),
    {
        if self.slot.is_none() {
            return Ok(Async::Ready(()));
        }
        if !self.receiver_open {
            let m = self.slot.take().unwrap();
            return Err(SendError::Disconnected(m));
        }
        self.tx_parked = true;
        Ok(Async::NotReady)
    }

    /// Releases the sending end.
    pub fn drop_sender(&mut self)
        ensures
            final(self)@ == old(self)@.after_drop_sender(),
            final(self).produced() == old(self).produced(),
    {
        self.sender_open = false;
        if self.rx_parked {
            self.rx_parked = false;
            self.rx_wake = true;
        }
    }

    /// Releases the receiving end.
    pub fn drop_receiver(&mut self)
        ensures
            final(self)@ == old(self)@.after_drop_receiver(),
            final(self).produced() == old(self).produced(),
    {
        self.receiver_open = false;
        if self.tx_parked {
            self.tx_parked = false;
            self.tx_wake = true;
        }
    }

    /// Whether the receiver must be woken now; the wake-up is then no
    /// longer due.
    pub fn take_receiver_wake(&mut self) -> (r: bool)
        ensures
            r == old(self)@.rx_wake,
            final(self)@ == (ChannelState { rx_wake: false, ..old(self)@ }),
            final(self).produced() == old(self).produced(),
    {
        let r = self.rx_wake;
        self.rx_wake = false;
        r
    }

    /// Whether the sender must be woken now; the wake-up is then no longer
    /// due.
    pub fn take_sender_wake(&mut self) -> (r: bool)
        ensures
            r == old(self)@.tx_wake,
            final(self)@ == (ChannelState { tx_wake: false, ..old(self)@ }),
            final(self).produced() == old(self).produced(),
    {
        let r = self.tx_wake;
        self.tx_wake = false;
        r
    }
}

impl<T, E> Stream for Channel<T, E> {
    type Item = T;
    type Error = E;

    closed spec fn produced(&self) -> Seq<T> {
        self.produced@
    }

    open spec fn inv(&self) -> bool {
        true
    }

    open spec fn polled(&self, after: Self, r: Poll<Option<T>, E>) -> bool {
        &&& r == self@.recv_result()
        &&& after@ == self@.after_recv()
    }

    fn poll(&mut self) -> (r: Poll<Option<T>, E>) {
        match self.slot.take() {
            Some(m) => {
                if self.tx_parked {
                    self.tx_parked = false;
                    self.tx_wake = true;
                }
                match m {
                    Ok(x) => {
                        proof {
                            self.produced@ = self.produced@.push(x);
                        }
                        Ok(Async::Ready(Some(x)))
                    },
                    Err(e) => Err(e),
                }
            },
            None => {
                if self.sender_open {
                    self.rx_parked = true;
                    Ok(Async::NotReady)
                } else {
                    Ok(Async::Ready(None))
                }
            },
        }
    }
}

/// The life of one message: a receiver on an empty open channel waits; once
/// a send is accepted, exactly one advance of the receiver hands the item
/// out, after which the send completes and the receiver waits again; once the
/// sender is released with the slot empty, the receiver sees the end.
pub proof fn lemma_channel_hand_off<T, E>(c0: ChannelState<T, E>, x: T)
    requires
        c0.is_fresh(),
    ensures
        ({
            let c1 = c0.after_recv();
            let c2 = c1.after_send(Ok(x));
            let c3 = c2.after_recv();
            let c4 = c3.after_drop_sender();
            &&& c0.recv_result() == Ok::<Async<Option<T>>, E>(Async::NotReady)
            &&& c1.rx_parked
            &&& c1.send_result(Ok(x)) is Ok
            &&& c2.rx_wake
            &&& c2.recv_result() == Ok::<Async<Option<T>>, E>(Async::Ready(Some(x)))
            &&& c3.slot is None
            &&& c3.send_poll_result() == Ok::<Async<()>, SendError<Result<T, E>>>(Async::Ready(()))
            &&& c3.recv_result() == Ok::<Async<Option<T>>, E>(Async::NotReady)
            &&& c4.recv_result() == Ok::<Async<Option<T>>, E>(Async::Ready(None))
        }),
{
}

} // verus!
