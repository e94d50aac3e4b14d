//! Continuations: single-use channels whose receiving end is polled.
//!
//! A [`Sender`] sends one value. A [`Future`] is polled for it, and has its waker notified when the
//! value comes. A [`FutureCancel`] also calls a handler when it is closed before anything was
//! sent. Either end may be dropped first, on any thread.
//!
//! - [`Slot`] is what the two ends share, with exact contracts for each step on it.
//! - Each end keeps, in ghost state, a record of the calls by which it acts on what is shared. Only
//!   the items that make the calls write to it, so the contracts over these records say which calls
//!   are made, on what, in which order, and that there are no others.
//! - [`steps`] says which calls a send, a poll and a hangup make.
//! - [`laws`] relates what is sent, returned and told, where one call finds what another left.
//! - [`protocol`] puts the recorded calls of the two ends together, in every interleaving, and
//!   proves laws of the runs that result, such as that the value is received or dropped exactly
//!   once. The laws assume of the lock that it lends the slot as its last holder left it, of the
//!   flag that a read tells whether it was raised, and of the waker cell that a wake notifies the
//!   waker that was registered last.

mod access;
mod cancel;
mod future;
pub mod laws;
pub mod protocol;
mod sender;
mod slot;
pub mod steps;
pub mod sync;

use crate::access::{Call, End};
use vstd::prelude::*;

pub use crate::cancel::{FutureCancel, FutureCancellation};
pub use crate::future::{Future, Stage};
pub use crate::sender::Sender;
pub use crate::slot::{DropState, ReadStatus, Slot};
pub use crate::steps::Poll;

verus! {

/// Creates a continuation.
///
/// See [`continuation_cancel`] for one whose future tells when it is cancelled.
pub fn continuation<R>() -> (ends: (Sender<R>, Future<R>))
    ensures
        ends.0.wf(),
        !ends.0.sent(),
        ends.0.calls() == Seq::<Call<Slot<R>>>::empty(),
        ends.1.wf(),
        ends.1.stage() == Stage::Open,
        ends.1.calls() == Seq::<Call<Slot<R>>>::empty(),
        ends.0.channel() == ends.1.channel(),
        ends.0.is_fresh(),
{
    let (first, second) = End::pair(Slot::Empty);
    (Sender::new(first), Future::new(second))
}

/// Creates a continuation with a handler that is called if the future is closed before anything
/// was sent to it.
pub fn continuation_cancel<R, C: FutureCancellation>(cancellation: C) -> (ends: (
    Sender<R>,
    FutureCancel<R, C>,
))
    ensures
        ends.0.wf(),
        !ends.0.sent(),
        ends.0.calls() == Seq::<Call<Slot<R>>>::empty(),
        ends.1.wf(),
        ends.1.stage() == Stage::Open,
        ends.1.calls() == Seq::<Call<Slot<R>>>::empty(),
        ends.1.cancellation() == cancellation,
        ends.0.channel() == ends.1.channel(),
        ends.0.is_fresh(),
{
    let (sender, future) = continuation();
    (sender, FutureCancel::new(future, cancellation))
}

} // verus!
