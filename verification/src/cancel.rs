//! The receiving end with cancellation support.

use crate::access::{Call, Parts};
use crate::future::{stage_after_poll, Future, Stage};
use crate::slot::{DropState, Slot};
use crate::steps::{hangs_up, polls, Poll};
use std::sync::Arc;
use std::task::Waker;
use vstd::prelude::*;

verus! {

/// Code to run when a future is dropped before anything was sent to it.
pub trait FutureCancellation {
    /// Whether `after` is a state in which a call of [`FutureCancellation::cancel`] may leave a
    /// handler that was in the state `self`. A handler that does not say may be left in any state.
    open spec fn cancel_effect(&self, after: &Self) -> bool {
        true
    }

    /// Called when the future is dropped before anything was sent to it.
    fn cancel(&mut self)
        ensures
            old(self).cancel_effect(final(self)),
    ;
}

/// The receiving end of a continuation, with cancellation support.
///
/// The owner calls [`FutureCancel::close`] when it is done with the future. One that is dropped
/// without that hangs up as every [`Future`] does, and the handler is not called.
#[verifier::reject_recursive_types(R)]
pub struct FutureCancel<R, C: FutureCancellation> {
    future: Future<R>,
    cancellation: C,
}

impl<R, C: FutureCancellation> FutureCancel<R, C> {
    /// The future that receives the value.
    pub closed spec fn future(&self) -> Future<R> {
        self.future
    }

    /// The handler.
    pub closed spec fn cancellation(&self) -> C {
        self.cancellation
    }

    /// The calls by which the future has acted on what it shares with its sender.
    pub open spec fn calls(&self) -> Seq<Call<Slot<R>>> {
        self.future().calls()
    }

    /// What the future shares with its sender.
    pub open spec fn channel(&self) -> Arc<Parts<Slot<R>>> {
        self.future().channel()
    }

    /// How far the future has come.
    pub open spec fn stage(&self) -> Stage {
        self.future().stage()
    }

    /// The future has kept to the order of its calls and is not in the middle of a poll or a hangup.
    pub open spec fn wf(&self) -> bool {
        self.future().wf()
    }

    /// What is said of the future and of the handler is said of those that are held.
    proof fn law_what_is_held(&self)
        ensures
            self.future() == self.future,
            self.cancellation() == self.cancellation,
            self.calls() == self.future.calls(),
            self.channel() == self.future.channel(),
            self.stage() == self.future.stage(),
            self.wf() == self.future.wf(),
    {
    }

    /// A future with a handler.
    pub(crate) fn new(future: Future<R>, cancellation: C) -> (wrapped: Self)
        ensures
            wrapped.future() == future,
            wrapped.cancellation() == cancellation,
    {
        FutureCancel { future, cancellation }
    }

    /// Asks for the value as [`Future::poll`] does.
    pub fn poll(&mut self, waker: &Waker) -> (result: Poll<R>)
        requires
            old(self).wf(),
            old(self).stage() == Stage::Open,
        ensures
            final(self).wf(),
            polls(
                old(self).channel(),
                old(self).calls(),
                final(self).calls(),
                *waker,
                result,
            ),
            final(self).stage() == stage_after_poll(result),
            final(self).channel() == old(self).channel(),
            final(self).cancellation() == old(self).cancellation(),
    {
        self.future.poll(waker)
    }

    /// Whether the future may be polled.
    pub fn is_open(&self) -> (open: bool)
        ensures
            open == (self.stage() == Stage::Open),
    {
        self.future.is_open()
    }

    /// Whether the future has hung up.
    pub fn is_closed(&self) -> (closed: bool)
        ensures
            closed == (self.stage() == Stage::Closed),
    {
        self.future.is_closed()
    }

    /// Hangs up, and calls the handler if nothing had been sent.
    ///
    /// A value that was sent and not received is dropped.
    pub fn close(&mut self) -> (state: DropState)
        requires
            old(self).stage() != Stage::Closed,
        ensures
            old(self).wf() ==> final(self).wf(),
            final(self).stage() == Stage::Closed,
            hangs_up(old(self).channel(), old(self).calls(), final(self).calls(), state),
            final(self).channel() == old(self).channel(),
            match state {
                DropState::Cancelled => old(self).cancellation().cancel_effect(
                    &final(self).cancellation(),
                ),
                DropState::NotCancelled => final(self).cancellation() == old(
                    self,
                ).cancellation(),
            },
    {
        let state = self.future.drop_impl();
        match state {
            DropState::Cancelled => {
                self.cancellation.cancel();
            },
            DropState::NotCancelled => {},
        }
        state
    }
}

} // verus!
