//! The bounded publish channel behind an exchange boundary: a FIFO queue of
//! wire frames with a fixed capacity and an explicit closed state. The queue
//! itself is `async_channel`'s bounded channel; this module owns both of its
//! ends, so the frames it holds are exactly the frames pushed here and not
//! yet drained here, and the contracts below describe the queue through the
//! named model functions.

use vstd::prelude::*;

verus! {

/// The frames currently queued in a publish channel, oldest first.
pub uninterp spec fn channel_frames(c: &PublishChannel) -> Seq<Seq<u8>>;

/// The capacity the bounded channel was created with.
pub uninterp spec fn channel_cap(c: &PublishChannel) -> nat;

/// Whether the channel has been closed.
pub uninterp spec fn channel_closed(c: &PublishChannel) -> bool;

/// A bounded FIFO channel of serialized wire frames for one exchange
/// destination. Both ends are held here: the sending end is driven by an
/// exchange sink, the receiving end by the transport that delivers frames
/// to the remote node.
#[verifier::external_body]
pub struct PublishChannel {
    sender: async_channel::Sender<Vec<u8>>,
    receiver: async_channel::Receiver<Vec<u8>>,
}

/// What a non-blocking send did; `Full` and `Closed` hand the undelivered
/// frame back to the caller.
pub enum TrySendOutcome {
    Sent,
    Full(Vec<u8>),
    Closed(Vec<u8>),
}

impl PublishChannel {
    /// A channel holding at most `cap` frames: capacity and closed state
    /// are fixed by construction, the queue starts empty.
    ///
    /// Relies on `async_channel::bounded`: a FIFO queue of capacity `cap`
    /// (which must be positive, or `bounded` panics), initially empty and
    /// open.
    #[verifier::external_body]
    pub(crate) fn create(cap: usize) -> (c: PublishChannel)
        requires
            cap >= 1,
        ensures
            channel_frames(&c) == Seq::<Seq<u8>>::empty(),
            channel_cap(&c) == cap,
            !channel_closed(&c),
    {
        let (sender, receiver) = async_channel::bounded(cap);
        PublishChannel { sender, receiver }
    }

    /// Non-blocking send.
    ///
    /// Relies on `async_channel::Sender::try_send`: the frame is appended
    /// to the queue unless the channel is closed (`Closed`, frame handed
    /// back) or the queue is at capacity (`Full`, frame handed back).
    #[verifier::external_body]
    pub(crate) fn try_send_frame(&mut self, frame: Vec<u8>) -> (r: TrySendOutcome)
        ensures
            channel_cap(final (self)) == channel_cap(old(self)),
            channel_closed(final (self)) == channel_closed(old(self)),
            channel_closed(old(self)) ==> {
                &&& r == TrySendOutcome::Closed(frame)
                &&& channel_frames(final (self)) == channel_frames(old(self))
            },
            !channel_closed(old(self)) && channel_frames(old(self)).len() >= channel_cap(
                old(self),
            ) ==> {
                &&& r == TrySendOutcome::Full(frame)
                &&& channel_frames(final (self)) == channel_frames(old(self))
            },
            !channel_closed(old(self)) && channel_frames(old(self)).len() < channel_cap(
                old(self),
            ) ==> {
                &&& r == TrySendOutcome::Sent
                &&& channel_frames(final (self)) == channel_frames(old(self)).push(frame@)
            },
    {
        match self.sender.try_send(frame) {
            Ok(()) => TrySendOutcome::Sent,
            Err(async_channel::TrySendError::Full(f)) => TrySendOutcome::Full(f),
            Err(async_channel::TrySendError::Closed(f)) => TrySendOutcome::Closed(f),
        }
    }

    /// Non-blocking receive: pops the oldest queued frame, if any. Frames
    /// queued before the channel was closed can still be drained.
    ///
    /// Relies on `async_channel::Receiver::try_recv`: pops the front of the
    /// FIFO queue, or reports an empty (or closed and drained) queue.
    #[verifier::external_body]
    pub(crate) fn try_recv_frame(&mut self) -> (r: Option<Vec<u8>>)
        ensures
            channel_cap(final (self)) == channel_cap(old(self)),
            channel_closed(final (self)) == channel_closed(old(self)),
            channel_frames(old(self)).len() == 0 ==> {
                &&& r is None
                &&& channel_frames(final (self)) == channel_frames(old(self))
            },
            channel_frames(old(self)).len() > 0 ==> {
                &&& r is Some
                &&& r->Some_0@ == channel_frames(old(self))[0]
                &&& channel_frames(final (self)) == channel_frames(old(self)).drop_first()
            },
    {
        match self.receiver.try_recv() {
            Ok(f) => Some(f),
            Err(_) => None,
        }
    }

    /// Closes the channel. Idempotent; queued frames stay drainable, every
    /// later send fails with `Closed`.
    ///
    /// Relies on `async_channel::Sender::close`: marks the channel closed
    /// without discarding queued messages.
    #[verifier::external_body]
    pub(crate) fn close(&mut self)
        ensures
            channel_cap(final (self)) == channel_cap(old(self)),
            channel_frames(final (self)) == channel_frames(old(self)),
            channel_closed(final (self)),
    {
        self.sender.close();
    }

    /// Whether the channel has been closed.
    ///
    /// Relies on `async_channel::Sender::is_closed`.
    #[verifier::external_body]
    pub(crate) fn is_closed(&self) -> (r: bool)
        ensures
            r == channel_closed(self),
    {
        self.sender.is_closed()
    }
}

} // verus!
