//! How calls on one continuation relate, stated over what the ends return and have on record.
//!
//! Each law takes ends as they are before and after a call, and what the call promised of them. Where
//! two calls meet in memory, the law says so: the one finds what the other left. That they meet is
//! part of what the law shows, since every call on record names the lock, the waker cell or the flag
//! that it acted on.

use crate::access::Call;
use crate::cancel::{FutureCancel, FutureCancellation};
use crate::future::Future;
use crate::sender::Sender;
use crate::slot::{DropState, Slot};
use crate::steps::{hang_up_calls, hangs_up, poll_calls, polls, send_calls, sends, Poll};
use crate::sync::{SyncFuture, SyncSender};
use std::sync::atomic::{AtomicBool, Ordering};
use std::sync::Mutex;
use std::task::Waker;
use vstd::prelude::*;

verus! {

/// A new continuation is made of an empty slot and of a flag that is not raised.
pub proof fn law_a_new_continuation_is_empty<R>(sender: Sender<R>)
    requires
        sender.is_fresh(),
    ensures
        call_ensures(Mutex::<Slot<R>>::new, (Slot::<R>::Empty,), sender.channel().lock()),
        call_ensures(AtomicBool::new, (false,), sender.channel().flag()),
{
}

/// A send puts its value into the slot if nothing is there, and then wakes whoever waits. Otherwise
/// it leaves the slot as it is and wakes nobody. It does nothing else, and all of it on the channel
/// of the sender.
pub proof fn law_a_send_fills_an_empty_slot_and_wakes<R>(
    before: Sender<R>,
    after: Sender<R>,
    data: R,
)
    requires
        before.wf(),
        !before.sent(),
        sends(before.channel(), before.calls(), after.calls(), data),
    ensures
        after.calls().len() >= 1,
        after.calls()[0] matches Call::Lend { lock, found, left } && {
            &&& lock == before.channel().lock()
            &&& found is Empty ==> left == Slot::Data(data)
            &&& found is Empty ==> after.calls() == seq![
                after.calls()[0],
                Call::Wake { cell: before.channel().cell() },
            ]
            &&& !(found is Empty) ==> left == found
            &&& !(found is Empty) ==> after.calls().len() == 1
        },
{
    let found = choose|found: Slot<R>|
        after.calls() == before.calls() + #[trigger] send_calls(before.channel(), data, found);
    assert(after.calls() =~= send_calls(before.channel(), data, found));
}

/// A poll returns the very value that was sent to it. If the slot took the value, and a look of the
/// poll finds what the send left there, then that look is the last, it takes the value out, and the
/// poll returns it.
pub proof fn law_a_poll_returns_what_a_send_left<R>(
    sender: Sender<R>,
    data: R,
    before: Future<R>,
    after: Future<R>,
    waker: Waker,
    result: Poll<R>,
    look: int,
)
    requires
        sends(sender.channel(), Seq::empty(), sender.calls(), data),
        before.channel() == sender.channel(),
        polls(before.channel(), before.calls(), after.calls(), waker, result),
        before.calls().len() <= look < after.calls().len(),
        after.calls()[look] is Lend,
        sender.calls()[0]->found is Empty,
        after.calls()[look]->found == sender.calls()[0]->left,
    ensures
        result == Poll::Ready(data),
        sender.calls()[0] is Lend,
        after.calls()[look]->lock == sender.calls()[0]->lock,
        after.calls()[look]->left is Gone,
        look == after.calls().len() - 1,
{
    let found = choose|found: Slot<R>|
        sender.calls() == Seq::empty() + #[trigger] send_calls(sender.channel(), data, found);
    assert(sender.calls() =~= send_calls(sender.channel(), data, found));
    lemma_poll_calls(before, after, waker, result);
}

/// A poll whose looks all find the slot empty is pending. It leaves the slot empty, and between two
/// looks it registers its waker in the cell of the channel. It does nothing else.
pub proof fn law_a_poll_that_finds_nothing_is_pending<R>(
    before: Future<R>,
    after: Future<R>,
    waker: Waker,
    result: Poll<R>,
)
    requires
        polls(before.channel(), before.calls(), after.calls(), waker, result),
        forall|i: int|
            before.calls().len() <= i < after.calls().len() && (#[trigger] after.calls()[i]) is Lend
                ==> after.calls()[i]->found is Empty,
    ensures
        result == Poll::<R>::Pending,
        after.calls() == before.calls() + seq![
            Call::Lend { lock: before.channel().lock(), found: Slot::Empty, left: Slot::Empty },
            Call::Register { cell: before.channel().cell(), waker },
            Call::Lend { lock: before.channel().lock(), found: Slot::Empty, left: Slot::Empty },
        ],
{
    lemma_poll_calls(before, after, waker, result);
    let first = before.calls().len() as int;
    assert(after.calls()[first]->found is Empty);
    assert(after.calls()[first + 2]->found is Empty);
}

/// What a poll returns is what its last look found, and the looks before it found nothing.
pub proof fn law_a_poll_tells_what_its_last_look_found<R>(
    before: Future<R>,
    after: Future<R>,
    waker: Waker,
    result: Poll<R>,
)
    requires
        polls(before.channel(), before.calls(), after.calls(), waker, result),
    ensures
        before.calls().is_prefix_of(after.calls()),
        after.calls().len() > before.calls().len(),
        after.calls().last() matches Call::Lend { lock, found, left } && {
            &&& lock == before.channel().lock()
            &&& match result {
                Poll::Ready(data) => found == Slot::Data(data) && left is Gone,
                Poll::Pending => found is Empty && left is Empty,
                Poll::Spent => (found is Gone || found is FutureHangup) && left == found,
            }
        },
        forall|i: int|
            before.calls().len() <= i < after.calls().len() - 1 && (
            #[trigger] after.calls()[i]) is Lend ==> after.calls()[i]->found is Empty
                && after.calls()[i]->left is Empty,
{
    lemma_poll_calls(before, after, waker, result);
}

/// A send notifies the cell in which a pending poll of the same channel has registered its waker.
pub proof fn law_a_send_wakes_where_a_poll_registered<R>(
    sender: Sender<R>,
    data: R,
    before: Future<R>,
    after: Future<R>,
    waker: Waker,
)
    requires
        sends(sender.channel(), Seq::empty(), sender.calls(), data),
        sender.calls()[0]->found is Empty,
        before.channel() == sender.channel(),
        polls(before.channel(), before.calls(), after.calls(), waker, Poll::Pending),
    ensures
        after.calls()[after.calls().len() - 2] matches Call::Register { cell, waker: registered }
            && registered == waker && sender.calls().last() == (Call::<Slot<R>>::Wake { cell }),
{
    let found = choose|found: Slot<R>|
        sender.calls() == Seq::empty() + #[trigger] send_calls(sender.channel(), data, found);
    assert(sender.calls() =~= send_calls(sender.channel(), data, found));
    lemma_poll_calls(before, after, waker, Poll::Pending);
}

/// A hangup tells of a cancellation exactly when it finds the slot empty. It leaves the slot hung up
/// and then raises the flag, both those of the channel, and does nothing else.
pub proof fn law_a_hangup_marks_the_slot_and_raises_the_flag<R>(
    before: Future<R>,
    after: Future<R>,
    state: DropState,
)
    requires
        hangs_up(before.channel(), before.calls(), after.calls(), state),
    ensures
        before.calls().is_prefix_of(after.calls()),
        after.calls().len() == before.calls().len() + 2,
        after.calls()[before.calls().len() as int] matches Call::Lend { lock, found, left } && {
            &&& lock == before.channel().lock()
            &&& left is FutureHangup
            &&& state == DropState::Cancelled <==> found is Empty
        },
        after.calls().last() == (Call::<Slot<R>>::Raise { flag: before.channel().flag() }),
{
    let found = choose|found: Slot<R>|
        {
            &&& after.calls() == before.calls() + #[trigger] hang_up_calls(before.channel(), found)
            &&& state == found.drop_state()
        };
}

/// A future that hangs up after a poll, with nothing sent in between, is cancelled exactly if the
/// poll was pending. After a poll that returned the value, it is not.
pub proof fn law_a_close_after_a_poll<R, C: FutureCancellation>(
    before: FutureCancel<R, C>,
    polled: FutureCancel<R, C>,
    closed: FutureCancel<R, C>,
    waker: Waker,
    result: Poll<R>,
    state: DropState,
)
    requires
        polls(before.channel(), before.calls(), polled.calls(), waker, result),
        polled.channel() == before.channel(),
        hangs_up(polled.channel(), polled.calls(), closed.calls(), state),
        closed.calls()[polled.calls().len() as int]->found == polled.calls().last()->left,
    ensures
        state == DropState::Cancelled <==> result is Pending,
        result is Ready ==> state == DropState::NotCancelled,
        closed.calls()[polled.calls().len() as int]->lock == polled.calls().last()->lock,
{
    law_a_poll_tells_what_its_last_look_found(before.future(), polled.future(), waker, result);
    law_a_hangup_marks_the_slot_and_raises_the_flag(polled.future(), closed.future(), state);
}

/// A future that hangs up after a value was sent to it is not cancelled.
pub proof fn law_a_close_after_a_send_is_no_cancellation<R, C: FutureCancellation>(
    sender: Sender<R>,
    data: R,
    before: FutureCancel<R, C>,
    closed: FutureCancel<R, C>,
    state: DropState,
)
    requires
        sends(sender.channel(), Seq::empty(), sender.calls(), data),
        before.channel() == sender.channel(),
        hangs_up(before.channel(), before.calls(), closed.calls(), state),
        sender.calls()[0]->found is Empty,
        closed.calls()[before.calls().len() as int]->found == sender.calls()[0]->left,
    ensures
        state == DropState::NotCancelled,
        closed.calls()[before.calls().len() as int]->lock == sender.calls()[0]->lock,
{
    let found = choose|found: Slot<R>|
        sender.calls() == Seq::empty() + #[trigger] send_calls(sender.channel(), data, found);
    assert(sender.calls() =~= send_calls(sender.channel(), data, found));
    law_a_hangup_marks_the_slot_and_raises_the_flag(before.future(), closed.future(), state);
}

/// A send to a future that has hung up leaves the slot hung up, and wakes nobody.
pub proof fn law_a_send_after_a_hangup_has_no_effect<R>(
    before: Future<R>,
    closed: Future<R>,
    state: DropState,
    sender: Sender<R>,
    data: R,
)
    requires
        hangs_up(before.channel(), before.calls(), closed.calls(), state),
        sender.channel() == before.channel(),
        sends(sender.channel(), Seq::empty(), sender.calls(), data),
        sender.calls()[0]->found == closed.calls()[before.calls().len() as int]->left,
    ensures
        sender.calls().len() == 1,
        sender.calls()[0] matches Call::Lend { lock, left, .. } && left is FutureHangup && lock
            == closed.calls()[before.calls().len() as int]->lock,
{
    let found = choose|found: Slot<R>|
        sender.calls() == Seq::empty() + #[trigger] send_calls(sender.channel(), data, found);
    assert(sender.calls() =~= send_calls(sender.channel(), data, found));
    law_a_hangup_marks_the_slot_and_raises_the_flag(before, closed, state);
}

/// A sender that asks whether its future is gone is told what a read of a flag gives, and this is
/// the very flag that a hangup of the future raises.
pub proof fn law_is_cancelled_reads_the_flag_that_a_hangup_raises<R>(
    sender: Sender<R>,
    cancelled: bool,
    before: Future<R>,
    after: Future<R>,
    state: DropState,
)
    requires
        sender.shows(cancelled),
        before.channel() == sender.channel(),
        hangs_up(before.channel(), before.calls(), after.calls(), state),
    ensures
        after.calls().last() matches Call::Raise { flag } && call_ensures(
            AtomicBool::load,
            (&flag, Ordering::Acquire),
            cancelled,
        ),
{
    law_a_hangup_marks_the_slot_and_raises_the_flag(before, after, state);
}

/// Only a hangup raises a flag: no send and no poll does.
pub proof fn law_only_a_hangup_raises_a_flag<R>(
    sender: Sender<R>,
    data: R,
    before: Future<R>,
    after: Future<R>,
    waker: Waker,
    result: Poll<R>,
)
    requires
        sends(sender.channel(), Seq::empty(), sender.calls(), data),
        polls(before.channel(), before.calls(), after.calls(), waker, result),
    ensures
        forall|i: int| 0 <= i < sender.calls().len() ==> !((#[trigger] sender.calls()[i]) is Raise),
        forall|i: int|
            before.calls().len() <= i < after.calls().len() ==> !((
            #[trigger] after.calls()[i]) is Raise),
{
    let found = choose|found: Slot<R>|
        sender.calls() == Seq::empty() + #[trigger] send_calls(sender.channel(), data, found);
    assert(sender.calls() =~= send_calls(sender.channel(), data, found));
    lemma_poll_calls(before, after, waker, result);
}

/// A poll through a wrapper returns the very value that was sent through a wrapper.
pub proof fn law_a_sync_poll_returns_what_a_sync_send_left<R>(
    sender: SyncSender<R>,
    spent: Sender<R>,
    data: R,
    before: SyncFuture<R>,
    after: SyncFuture<R>,
    waker: Waker,
    result: Poll<R>,
    look: int,
)
    requires
        sender.inner().wf(),
        !sender.inner().sent(),
        sends(sender.inner().channel(), sender.inner().calls(), spent.calls(), data),
        spent.channel() == sender.inner().channel(),
        before.inner().channel() == sender.inner().channel(),
        polls(
            before.inner().channel(),
            before.inner().calls(),
            after.inner().calls(),
            waker,
            result,
        ),
        before.inner().calls().len() <= look < after.inner().calls().len(),
        after.inner().calls()[look] is Lend,
        spent.calls()[0]->found is Empty,
        after.inner().calls()[look]->found == spent.calls()[0]->left,
    ensures
        result == Poll::Ready(data),
        after.inner().calls()[look]->lock == spent.calls()[0]->lock,
        spent.calls().last() == (Call::<Slot<R>>::Wake { cell: sender.inner().channel().cell() }),
{
    law_a_send_fills_an_empty_slot_and_wakes(sender.inner(), spent, data);
    law_a_poll_returns_what_a_send_left(
        spent,
        data,
        before.inner(),
        after.inner(),
        waker,
        result,
        look,
    );
}

/// The calls of a poll, one by one.
proof fn lemma_poll_calls<R>(before: Future<R>, after: Future<R>, waker: Waker, result: Poll<R>)
    requires
        polls(before.channel(), before.calls(), after.calls(), waker, result),
    ensures
        exists|first: Slot<R>, second: Slot<R>|
            {
                let calls = #[trigger] poll_calls(before.channel(), waker, first, second);
                &&& result == crate::steps::poll_result(first, second)
                &&& after.calls() == before.calls() + calls
                &&& forall|i: int|
                    0 <= i < calls.len() ==> after.calls()[before.calls().len() + i]
                        == #[trigger] calls[i]
                &&& forall|i: int|
                    before.calls().len() <= i < after.calls().len() ==> #[trigger] after.calls()[i]
                        == calls[i - before.calls().len()]
            },
{
}

} // verus!
