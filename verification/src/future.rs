//! The receiving end.

use crate::access::{Call, End, Parts};
use crate::slot::{DropState, ReadStatus, Slot};
use crate::steps::{
    hang_up_calls, hangs_up, law_a_hangup_is_in_order, law_a_poll_is_in_order,
    lemma_receiver_concat, poll_calls, polls, receiver_after, Poll, ReceiverStage,
};
use std::sync::Arc;
use std::task::Waker;
use vstd::prelude::*;

verus! {

/// How far a future has come, as its owner sees it.
#[derive(Clone, Copy, Debug, PartialEq, Eq, Structural)]
pub enum Stage {
    /// The future may be polled.
    Open,
    /// The value has been received.
    Received,
    /// A poll has found the slot spent.
    Spent,
    /// The future has hung up.
    Closed,
}

/// The receiving end of a continuation, without cancellation support.
///
/// See also [`crate::FutureCancel`].
#[verifier::reject_recursive_types(R)]
pub struct Future<R> {
    end: End<Slot<R>>,
    stage: Stage,
}

/// Where a poll that returned `result` leaves a future.
pub open spec fn stage_after_poll<R>(result: Poll<R>) -> Stage {
    match result {
        Poll::Ready(_) => Stage::Received,
        Poll::Pending => Stage::Open,
        Poll::Spent => Stage::Spent,
    }
}

impl<R> Future<R> {
    /// The calls by which this future has acted on what it shares with its sender.
    pub closed spec fn calls(&self) -> Seq<Call<Slot<R>>> {
        self.end.calls()
    }

    /// What this future shares with its sender.
    pub closed spec fn channel(&self) -> Arc<Parts<Slot<R>>> {
        self.end.parts()
    }

    /// How far this future has come.
    pub closed spec fn stage(&self) -> Stage {
        self.stage
    }

    /// The future has kept to the order of its calls, has made all of them on its channel, and is not
    /// in the middle of a poll or a hangup.
    pub open spec fn wf(&self) -> bool {
        match receiver_after(self.channel(), self.calls()) {
            Some(ReceiverStage::Idle) => self.stage() == Stage::Open,
            Some(ReceiverStage::Parked(_)) => self.stage() == Stage::Open,
            Some(ReceiverStage::Received) => self.stage() == Stage::Received,
            Some(ReceiverStage::Spent) => self.stage() == Stage::Spent,
            Some(ReceiverStage::Closed) => self.stage() == Stage::Closed,
            _ => false,
        }
    }

    /// What is said of a future is said of the end that it acts through: its calls are those on the
    /// record of that end, and its channel is what that end shares.
    proof fn law_a_future_is_its_end(&self)
        ensures
            self.calls() == self.end.calls(),
            self.channel() == self.end.parts(),
            self.stage() == self.stage,
    {
    }

    /// A future on its end.
    pub(crate) fn new(end: End<Slot<R>>) -> (future: Future<R>)
        ensures
            future.calls() == end.calls(),
            future.channel() == end.parts(),
            future.stage() == Stage::Open,
    {
        Future { end, stage: Stage::Open }
    }

    /// Asks for the value; if it has not come, `waker` will be notified when it does.
    ///
    /// The first look saves the registration when the value is there already. The second comes
    /// after the registration, so that a value sent in between is not missed. No look ever finds
    /// the slot spent, as [`crate::protocol::law_only_expected_slots_are_found`] shows.
    pub fn poll(&mut self, waker: &Waker) -> (result: Poll<R>)
        requires
            old(self).wf(),
            old(self).stage() == Stage::Open,
        ensures
            final(self).wf(),
            polls(
                old(self).channel(),
                old(self).calls(),
                final(self).calls(),
                *waker,
                result,
            ),
            final(self).stage() == stage_after_poll(result),
            final(self).channel() == old(self).channel(),
    {
        let (status, Ghost(first)) = self.end.receive();
        let mut looked = status;
        let ghost mut second = first;
        match looked {
            ReadStatus::Waiting => {
                self.end.register(waker);
                let (again, Ghost(found)) = self.end.receive();
                looked = again;
                proof {
                    second = found;
                }
            },
            _ => {},
        }
        proof {
            let channel = old(self).channel();
            let before = receiver_after(channel, old(self).calls())->Some_0;
            let calls = poll_calls(channel, *waker, first, second);
            assert(self.calls() =~= old(self).calls() + calls);
            lemma_receiver_concat(channel, ReceiverStage::Idle, old(self).calls(), calls);
            law_a_poll_is_in_order(channel, before, *waker, first, second);
        }
        match looked {
            ReadStatus::Data(data) => {
                self.stage = Stage::Received;
                Poll::Ready(data)
            },
            ReadStatus::Waiting => Poll::Pending,
            ReadStatus::Spent => {
                self.stage = Stage::Spent;
                Poll::Spent
            },
        }
    }

    /// Whether the future may be polled.
    pub fn is_open(&self) -> (open: bool)
        ensures
            open == (self.stage() == Stage::Open),
    {
        self.stage == Stage::Open
    }

    /// Whether the future has hung up.
    pub(crate) fn is_closed(&self) -> (closed: bool)
        ensures
            closed == (self.stage() == Stage::Closed),
    {
        self.stage == Stage::Closed
    }

    /// Hangs up, and drops a value that was sent and not received.
    ///
    /// Tells whether the future hung up before anything was sent. That does not mean that nothing
    /// will be sent later.
    pub(crate) fn drop_impl(&mut self) -> (state: DropState)
        requires
            old(self).stage() != Stage::Closed,
        ensures
            old(self).wf() ==> final(self).wf(),
            hangs_up(old(self).channel(), old(self).calls(), final(self).calls(), state),
            final(self).stage() == Stage::Closed,
            final(self).channel() == old(self).channel(),
        opens_invariants none
        no_unwind
    {
        let (state, data, Ghost(found)) = self.end.hang_up();
        self.end.raise();
        self.stage = Stage::Closed;
        proof {
            let channel = old(self).channel();
            let calls = hang_up_calls(channel, found);
            assert(self.calls() =~= old(self).calls() + calls);
            lemma_receiver_concat(channel, ReceiverStage::Idle, old(self).calls(), calls);
            if old(self).wf() {
                law_a_hangup_is_in_order(
                    channel,
                    receiver_after(channel, old(self).calls())->Some_0,
                    found,
                );
            }
        }
        state
    }
}

impl<R> Drop for Future<R> {
    /// Hangs up, unless that has been done. Nobody is woken.
    fn drop(&mut self)
        ensures
            old(self).wf() ==> final(self).wf(),
            old(self).stage() == Stage::Closed ==> *final(self) == *old(self),
            old(self).stage() != Stage::Closed ==> exists|state: DropState|
                hangs_up(old(self).channel(), old(self).calls(), final(self).calls(), state),
            final(self).stage() == Stage::Closed,
            final(self).channel() == old(self).channel(),
        opens_invariants none
        no_unwind
    {
        if self.stage != Stage::Closed {
            let _ = self.drop_impl();
        }
    }
}

} // verus!
