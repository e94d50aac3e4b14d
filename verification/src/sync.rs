//! Ends of a continuation that may be shared between threads.
//!
//! Whatever acts on one of these takes it by value or by `&mut`, so a shared reference to one
//! gives no access to anything.

use crate::cancel::{FutureCancel, FutureCancellation};
use crate::future::{stage_after_poll, Future, Stage};
use crate::sender::Sender;
use crate::slot::DropState;
use crate::steps::{hangs_up, polls, sends, Poll};
use std::task::Waker;
use vstd::prelude::*;

verus! {

/// A [`Sender`] that needs exclusive access for everything.
#[verifier::reject_recursive_types(R)]
pub struct SyncSender<R> {
    inner: Sender<R>,
}

impl<R> SyncSender<R> {
    /// The sender inside.
    pub closed spec fn inner(&self) -> Sender<R> {
        self.inner
    }

    /// What is said of the sender inside is said of the one that is held.
    proof fn law_what_is_held(&self)
        ensures
            self.inner() == self.inner,
    {
    }

    /// Wraps a sender.
    pub fn new(sender: Sender<R>) -> (wrapped: Self)
        ensures
            wrapped.inner() == sender,
    {
        SyncSender { inner: sender }
    }

    /// Sends the value as [`Sender::send`] does, and returns the spent sender that was inside.
    pub fn send(self, data: R) -> (spent: Sender<R>)
        requires
            self.inner().wf(),
            !self.inner().sent(),
        ensures
            spent.wf(),
            spent.sent(),
            sends(self.inner().channel(), self.inner().calls(), spent.calls(), data),
            spent.channel() == self.inner().channel(),
    {
        self.inner.send(data)
    }

    /// Sends the value as [`SyncSender::send`] does, and keeps the spent sender.
    pub fn transmit(&mut self, data: R)
        requires
            old(self).inner().wf(),
            !old(self).inner().sent(),
        ensures
            final(self).inner().wf(),
            final(self).inner().sent(),
            sends(
                old(self).inner().channel(),
                old(self).inner().calls(),
                final(self).inner().calls(),
                data,
            ),
            final(self).inner().channel() == old(self).inner().channel(),
    {
        self.inner.transmit(data)
    }

    /// Whether it is in order to drop this sender, as [`Sender::may_drop`] tells.
    pub fn may_drop(&self, panicking: bool) -> (allowed: bool)
        ensures
            allowed == (panicking || self.inner().sent()),
    {
        self.inner.may_drop(panicking)
    }

    /// Whether the future has been dropped, so that sending has no effect.
    pub fn is_cancelled(&mut self) -> (cancelled: bool)
        ensures
            *final(self) == *old(self),
            old(self).inner().shows(cancelled),
    {
        self.inner.is_cancelled()
    }
}

/// A [`Future`] that needs exclusive access for everything.
#[verifier::reject_recursive_types(R)]
pub struct SyncFuture<R> {
    inner: Future<R>,
}

impl<R> SyncFuture<R> {
    /// The future inside.
    pub closed spec fn inner(&self) -> Future<R> {
        self.inner
    }

    /// What is said of the future inside is said of the one that is held.
    proof fn law_what_is_held(&self)
        ensures
            self.inner() == self.inner,
    {
    }

    /// Wraps a future.
    pub fn new(future: Future<R>) -> (wrapped: Self)
        ensures
            wrapped.inner() == future,
    {
        SyncFuture { inner: future }
    }

    /// Asks for the value as [`Future::poll`] does.
    pub fn poll(&mut self, waker: &Waker) -> (result: Poll<R>)
        requires
            old(self).inner().wf(),
            old(self).inner().stage() == Stage::Open,
        ensures
            final(self).inner().wf(),
            polls(
                old(self).inner().channel(),
                old(self).inner().calls(),
                final(self).inner().calls(),
                *waker,
                result,
            ),
            final(self).inner().stage() == stage_after_poll(result),
            final(self).inner().channel() == old(self).inner().channel(),
    {
        self.inner.poll(waker)
    }

    /// Whether the future may be polled.
    pub fn is_open(&self) -> (open: bool)
        ensures
            open == (self.inner().stage() == Stage::Open),
    {
        self.inner.is_open()
    }
}

/// A [`FutureCancel`] that needs exclusive access for everything.
#[verifier::reject_recursive_types(R)]
pub struct SyncFutureCancel<R, C: FutureCancellation> {
    inner: FutureCancel<R, C>,
}

impl<R, C: FutureCancellation> SyncFutureCancel<R, C> {
    /// The future inside.
    pub closed spec fn inner(&self) -> FutureCancel<R, C> {
        self.inner
    }

    /// What is said of the future inside is said of the one that is held.
    proof fn law_what_is_held(&self)
        ensures
            self.inner() == self.inner,
    {
    }

    /// Wraps a future.
    pub fn new(future: FutureCancel<R, C>) -> (wrapped: Self)
        ensures
            wrapped.inner() == future,
    {
        SyncFutureCancel { inner: future }
    }

    /// Asks for the value as [`FutureCancel::poll`] does.
    pub fn poll(&mut self, waker: &Waker) -> (result: Poll<R>)
        requires
            old(self).inner().wf(),
            old(self).inner().stage() == Stage::Open,
        ensures
            final(self).inner().wf(),
            polls(
                old(self).inner().channel(),
                old(self).inner().calls(),
                final(self).inner().calls(),
                *waker,
                result,
            ),
            final(self).inner().stage() == stage_after_poll(result),
            final(self).inner().channel() == old(self).inner().channel(),
            final(self).inner().cancellation() == old(self).inner().cancellation(),
    {
        self.inner.poll(waker)
    }

    /// Whether the future may be polled.
    pub fn is_open(&self) -> (open: bool)
        ensures
            open == (self.inner().stage() == Stage::Open),
    {
        self.inner.is_open()
    }

    /// Whether the future has hung up.
    pub fn is_closed(&self) -> (closed: bool)
        ensures
            closed == (self.inner().stage() == Stage::Closed),
    {
        self.inner.is_closed()
    }

    /// Hangs up as [`FutureCancel::close`] does.
    pub fn close(&mut self) -> (state: DropState)
        requires
            old(self).inner().stage() != Stage::Closed,
        ensures
            old(self).inner().wf() ==> final(self).inner().wf(),
            final(self).inner().stage() == Stage::Closed,
            hangs_up(
                old(self).inner().channel(),
                old(self).inner().calls(),
                final(self).inner().calls(),
                state,
            ),
            final(self).inner().channel() == old(self).inner().channel(),
            match state {
                DropState::Cancelled => old(self).inner().cancellation().cancel_effect(
                    &final(self).inner().cancellation(),
                ),
                DropState::NotCancelled => final(self).inner().cancellation() == old(
                    self,
                ).inner().cancellation(),
            },
    {
        self.inner.close()
    }
}

} // verus!
