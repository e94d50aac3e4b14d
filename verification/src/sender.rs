//! The sending end.

use crate::access::{Call, End, Parts};
use crate::slot::Slot;
use crate::steps::{send_calls, sends};
use std::sync::Arc;
use vstd::prelude::*;

verus! {

/// The sending end of a continuation.
///
/// It is a programmer error to drop a sender without sending a value: its future would wait for
/// ever. [`Sender::may_drop`] tells whether that would be so. A sender makes no call when it is
/// dropped.
#[verifier::reject_recursive_types(R)]
pub struct Sender<R> {
    end: End<Slot<R>>,
    sent: bool,
}

impl<R> Sender<R> {
    /// The calls by which this sender has acted on what it shares with its future.
    pub closed spec fn calls(&self) -> Seq<Call<Slot<R>>> {
        self.end.calls()
    }

    /// What this sender shares with its future.
    pub closed spec fn channel(&self) -> Arc<Parts<Slot<R>>> {
        self.end.parts()
    }

    /// Whether what this sender shares with its future was made with an empty slot.
    pub open spec fn is_fresh(&self) -> bool {
        self.channel().made_of(Slot::Empty)
    }

    /// Whether `cancelled` is what a read of the flag that a dropped future raises may give.
    pub open spec fn shows(&self, cancelled: bool) -> bool {
        self.channel().shows(cancelled)
    }

    /// Whether this sender has sent its value.
    pub closed spec fn sent(&self) -> bool {
        self.sent
    }

    /// The sender has made no call, or those of one send on its channel.
    pub open spec fn wf(&self) -> bool {
        if self.sent() {
            exists|data: R, found: Slot<R>|
                self.calls() == #[trigger] send_calls(self.channel(), data, found)
        } else {
            self.calls() == Seq::<Call<Slot<R>>>::empty()
        }
    }

    /// What is said of a sender is said of the end that it acts through: its calls are those on the
    /// record of that end, and its channel is what that end shares.
    proof fn law_a_sender_is_its_end(&self)
        ensures
            self.calls() == self.end.calls(),
            self.channel() == self.end.parts(),
            self.sent() == self.sent,
    {
    }

    /// A sender on its end.
    pub(crate) fn new(end: End<Slot<R>>) -> (sender: Sender<R>)
        ensures
            sender.calls() == end.calls(),
            sender.channel() == end.parts(),
            sender.is_fresh() == end.made_of(Slot::Empty),
            !sender.sent(),
    {
        Sender { end, sent: false }
    }

    /// Sends the value and wakes whoever waits for it.
    ///
    /// There is no guarantee that the value will be received: the future may have been dropped, in
    /// which case the value is dropped as well, or may be dropped afterwards. See
    /// [`Sender::is_cancelled`] for a way to save the work of making a value that nobody wants.
    ///
    /// Returns the spent sender, whose record shows the calls that were made.
    pub fn send(self, data: R) -> (spent: Sender<R>)
        requires
            self.wf(),
            !self.sent(),
        ensures
            spent.wf(),
            spent.sent(),
            sends(self.channel(), self.calls(), spent.calls(), data),
            spent.channel() == self.channel(),
    {
        let mut sender = self;
        sender.transmit(data);
        sender
    }

    /// Sends the value as [`Sender::send`] does, and keeps the spent sender.
    pub fn transmit(&mut self, data: R)
        requires
            old(self).wf(),
            !old(self).sent(),
        ensures
            final(self).wf(),
            final(self).sent(),
            sends(old(self).channel(), old(self).calls(), final(self).calls(), data),
            final(self).channel() == old(self).channel(),
    {
        self.sent = true;
        let (refused, Ghost(found)) = self.end.offer(data);
        match refused {
            None => {
                self.end.wake();
            },
            Some(_) => {},
        }
        let ghost made = send_calls(self.channel(), data, found);
        assert(self.calls() =~= old(self).calls() + made);
        assert(self.calls() =~= made);
    }

    /// Whether the future has been dropped, so that sending has no effect.
    ///
    /// Even if this is `false`, the future may be dropped before the value is sent. The answer is
    /// read from a flag, without waiting for the lock, and nothing is changed.
    pub fn is_cancelled(&self) -> (cancelled: bool)
        ensures
            self.shows(cancelled),
    {
        self.end.is_raised()
    }

    /// Whether it is in order to drop this sender: its value has been sent, or the thread is
    /// unwinding anyway.
    pub fn may_drop(&self, panicking: bool) -> (allowed: bool)
        ensures
            allowed == (panicking || self.sent()),
    {
        panicking || self.sent
    }
}

} // verus!
