//! The calls that sends, polls and hangups make, and the order in which each end makes its calls.

use crate::access::{Call, Parts};
use crate::slot::{DropState, Slot};
use std::sync::Arc;
use std::task::Waker;
use vstd::prelude::*;

verus! {

/// What a poll returns.
#[derive(Debug)]
pub enum Poll<R> {
    /// The value has come.
    Ready(R),
    /// The value has not come; the waker will be notified when it does.
    Pending,
    /// The slot was found spent, which only a broken continuation shows: nothing will ever come.
    Spent,
}

/// How far a sender has come.
pub enum SenderStage {
    /// Nothing has been sent.
    Unsent,
    /// The slot took the value, and the future has not been woken for it yet.
    Accepted,
    /// The slot took the value, and whoever was waiting has been woken.
    Notified,
    /// The slot did not take the value: the future was gone.
    Refused,
}

/// How far a future has come.
pub enum ReceiverStage {
    /// The future has not been polled.
    Idle,
    /// The first look of a poll found no value.
    Missed,
    /// The poll has registered its waker.
    Registered(Waker),
    /// The poll has looked again in vain and returned; its waker is to be woken.
    Parked(Waker),
    /// The value has been received.
    Received,
    /// A look found the slot spent.
    Spent,
    /// The future has marked the slot as hung up, and has not raised the flag yet.
    HungUp,
    /// The future has been dropped.
    Closed,
}

/// The call of an offer of `data` to a slot that was found as `found`.
pub open spec fn offer_call<R>(
    channel: Arc<Parts<Slot<R>>>,
    data: R,
    found: Slot<R>,
) -> Call<Slot<R>> {
    Call::Lend { lock: channel.lock(), found, left: found.after_send(data) }
}

/// The call of a look for the value in a slot that was found as `found`.
pub open spec fn receive_call<R>(channel: Arc<Parts<Slot<R>>>, found: Slot<R>) -> Call<Slot<R>> {
    Call::Lend { lock: channel.lock(), found, left: found.after_receive() }
}

/// The call that marks a slot that was found as `found` as hung up.
pub open spec fn hang_up_call<R>(channel: Arc<Parts<Slot<R>>>, found: Slot<R>) -> Call<Slot<R>> {
    Call::Lend { lock: channel.lock(), found, left: Slot::FutureHangup }
}

/// The calls of a send of `data` that found the slot as `found`: a value that was taken is followed
/// by a wake, and one that was not is followed by nothing.
pub open spec fn send_calls<R>(
    channel: Arc<Parts<Slot<R>>>,
    data: R,
    found: Slot<R>,
) -> Seq<Call<Slot<R>>> {
    if found is Empty {
        seq![offer_call(channel, data, found), Call::Wake { cell: channel.cell() }]
    } else {
        seq![offer_call(channel, data, found)]
    }
}

/// The calls of a poll that found the slot as `first`, and as `second` after it had registered
/// `waker`; only a poll whose first look finds the slot empty goes on to the registration.
pub open spec fn poll_calls<R>(
    channel: Arc<Parts<Slot<R>>>,
    waker: Waker,
    first: Slot<R>,
    second: Slot<R>,
) -> Seq<
    Call<Slot<R>>,
> {
    if first is Empty {
        seq![
            receive_call(channel, first),
            Call::Register { cell: channel.cell(), waker },
            receive_call(channel, second),
        ]
    } else {
        seq![receive_call(channel, first)]
    }
}

/// What one look at the slot lets a poll return.
pub open spec fn look_result<R>(found: Slot<R>) -> Poll<R> {
    match found {
        Slot::Data(data) => Poll::Ready(data),
        Slot::Empty => Poll::Pending,
        Slot::Gone | Slot::FutureHangup => Poll::Spent,
    }
}

/// What a poll with these two looks returns.
pub open spec fn poll_result<R>(first: Slot<R>, second: Slot<R>) -> Poll<R> {
    if first is Empty {
        look_result(second)
    } else {
        look_result(first)
    }
}

/// The calls of a hangup that found the slot as `found`.
pub open spec fn hang_up_calls<R>(
    channel: Arc<Parts<Slot<R>>>,
    found: Slot<R>,
) -> Seq<Call<Slot<R>>> {
    seq![hang_up_call(channel, found), Call::Raise { flag: channel.flag() }]
}

/// Whether the calls from `before` to `after` are those of one send of `data` on
/// `channel`, and no others.
pub open spec fn sends<R>(
    channel: Arc<Parts<Slot<R>>>,
    before: Seq<Call<Slot<R>>>,
    after: Seq<Call<Slot<R>>>,
    data: R,
) -> bool {
    exists|found: Slot<R>| after == before + #[trigger] send_calls(channel, data, found)
}

/// Whether the calls from `before` to `after` are those of one poll of `channel` with `waker` that
/// returned `result`, and no others.
pub open spec fn polls<R>(
    channel: Arc<Parts<Slot<R>>>,
    before: Seq<Call<Slot<R>>>,
    after: Seq<Call<Slot<R>>>,
    waker: Waker,
    result: Poll<R>,
) -> bool {
    exists|first: Slot<R>, second: Slot<R>|
        {
            &&& after == before + #[trigger] poll_calls(channel, waker, first, second)
            &&& result == poll_result(first, second)
        }
}

/// Whether the calls from `before` to `after` are those of one hangup on `channel` that told
/// `state`, and no others.
pub open spec fn hangs_up<R>(
    channel: Arc<Parts<Slot<R>>>,
    before: Seq<Call<Slot<R>>>,
    after: Seq<Call<Slot<R>>>,
    state: DropState,
) -> bool {
    exists|found: Slot<R>|
        {
            &&& after == before + #[trigger] hang_up_calls(channel, found)
            &&& state == found.drop_state()
        }
}

/// What the next call of a sender that has `data` to send makes of its stage; `None` if the call is
/// out of order, or acts on anything but `channel`.
pub open spec fn sender_next<R>(
    channel: Arc<Parts<Slot<R>>>,
    data: R,
    stage: SenderStage,
    call: Call<Slot<R>>,
) -> Option<
    SenderStage,
> {
    match (stage, call) {
        (SenderStage::Unsent, Call::Lend { lock, found, left }) => if lock == channel.lock()
            && left == found.after_send(data) {
            Some(
                if found is Empty {
                    SenderStage::Accepted
                } else {
                    SenderStage::Refused
                },
            )
        } else {
            None
        },
        (SenderStage::Accepted, Call::Wake { cell }) => if cell == channel.cell() {
            Some(SenderStage::Notified)
        } else {
            None
        },
        _ => None,
    }
}

/// Where a look leads a future that had come as far as `missed` if the slot is empty.
pub open spec fn looked<R>(found: Slot<R>, missed: ReceiverStage) -> ReceiverStage {
    match found {
        Slot::Data(_) => ReceiverStage::Received,
        Slot::Empty => missed,
        Slot::Gone | Slot::FutureHangup => ReceiverStage::Spent,
    }
}

/// What a future's next call makes of its stage; `None` if the call is out of order, or acts on
/// anything but `channel`.
///
/// A poll that misses its value registers its waker and then looks again. Only between polls is a
/// future dropped, and only before the value is received is it polled. A call that finds the slot
/// hung up and leaves it so may be a look or a hangup.
pub open spec fn receiver_next<R>(
    channel: Arc<Parts<Slot<R>>>,
    stage: ReceiverStage,
    call: Call<Slot<R>>,
) -> Option<
    ReceiverStage,
> {
    match (stage, call) {
        (
            ReceiverStage::Idle | ReceiverStage::Parked(_),
            Call::Lend { lock, found, left },
        ) => if lock != channel.lock() {
            None
        } else if left == found.after_receive() {
            Some(looked(found, ReceiverStage::Missed))
        } else if left is FutureHangup {
            Some(ReceiverStage::HungUp)
        } else {
            None
        },
        (ReceiverStage::Missed, Call::Register { cell, waker }) => if cell == channel.cell() {
            Some(ReceiverStage::Registered(waker))
        } else {
            None
        },
        (ReceiverStage::Registered(waker), Call::Lend { lock, found, left }) => if lock
            == channel.lock() && left == found.after_receive() {
            Some(looked(found, ReceiverStage::Parked(waker)))
        } else {
            None
        },
        (ReceiverStage::Received | ReceiverStage::Spent, Call::Lend { lock, left, .. }) => if lock
            == channel.lock() && left is FutureHangup {
            Some(ReceiverStage::HungUp)
        } else {
            None
        },
        (ReceiverStage::HungUp | ReceiverStage::Spent, Call::Raise { flag }) => if flag
            == channel.flag() {
            Some(ReceiverStage::Closed)
        } else {
            None
        },
        _ => None,
    }
}

/// Where a sender that has `data` to send stands after its calls; `None` if one was out of order.
pub open spec fn sender_after<R>(
    channel: Arc<Parts<Slot<R>>>,
    data: R,
    calls: Seq<Call<Slot<R>>>,
) -> Option<SenderStage>
    decreases calls.len(),
{
    if calls.len() == 0 {
        Some(SenderStage::Unsent)
    } else {
        match sender_after(channel, data, calls.drop_last()) {
            Some(stage) => sender_next(channel, data, stage, calls.last()),
            None => None,
        }
    }
}

/// Where a future that stood at `stage` stands after further calls; `None` if one was out of order.
pub open spec fn receiver_from<R>(
    channel: Arc<Parts<Slot<R>>>,
    stage: ReceiverStage,
    calls: Seq<Call<Slot<R>>>,
) -> Option<
    ReceiverStage,
>
    decreases calls.len(),
{
    if calls.len() == 0 {
        Some(stage)
    } else {
        match receiver_from(channel, stage, calls.drop_last()) {
            Some(reached) => receiver_next(channel, reached, calls.last()),
            None => None,
        }
    }
}

/// Where a future stands after its calls; `None` if one was out of order.
pub open spec fn receiver_after<R>(
    channel: Arc<Parts<Slot<R>>>,
    calls: Seq<Call<Slot<R>>>,
) -> Option<ReceiverStage> {
    receiver_from(channel, ReceiverStage::Idle, calls)
}

/// A further call of a sender leads from the stage it had reached to the next.
pub proof fn lemma_sender_push<R>(
    channel: Arc<Parts<Slot<R>>>,
    data: R,
    calls: Seq<Call<Slot<R>>>,
    call: Call<Slot<R>>,
)
    ensures
        sender_after(channel, data, calls.push(call)) == match sender_after(channel, data, calls) {
            Some(stage) => sender_next(channel, data, stage, call),
            None => None,
        },
{
    assert(calls.push(call).drop_last() =~= calls);
}

/// A further call of a future leads from the stage it had reached to the next.
pub proof fn lemma_receiver_push<R>(
    channel: Arc<Parts<Slot<R>>>,
    stage: ReceiverStage,
    calls: Seq<Call<Slot<R>>>,
    call: Call<Slot<R>>,
)
    ensures
        receiver_from(channel, stage, calls.push(call)) == match receiver_from(
            channel,
            stage,
            calls,
        ) {
            Some(reached) => receiver_next(channel, reached, call),
            None => None,
        },
{
    assert(calls.push(call).drop_last() =~= calls);
}

/// Further calls of a future lead on from the stage it had reached.
pub proof fn lemma_receiver_concat<R>(
    channel: Arc<Parts<Slot<R>>>,
    stage: ReceiverStage,
    calls: Seq<Call<Slot<R>>>,
    more: Seq<Call<Slot<R>>>,
)
    ensures
        receiver_from(channel, stage, calls + more) == match receiver_from(channel, stage, calls) {
            Some(reached) => receiver_from(channel, reached, more),
            None => None,
        },
    decreases more.len(),
{
    if more.len() == 0 {
        assert(calls + more =~= calls);
    } else {
        lemma_receiver_concat(channel, stage, calls, more.drop_last());
        assert((calls + more).drop_last() =~= calls + more.drop_last());
    }
}

/// A send comes to an end in order: with the future notified if the slot was empty, and with the
/// value refused otherwise.
pub proof fn law_a_send_is_in_order<R>(channel: Arc<Parts<Slot<R>>>, data: R, found: Slot<R>)
    ensures
        sender_after(channel, data, send_calls(channel, data, found)) == Some(
            if found is Empty {
                SenderStage::Notified
            } else {
                SenderStage::Refused
            },
        ),
{
    let offer = offer_call(channel, data, found);
    let wake = Call::<Slot<R>>::Wake { cell: channel.cell() };
    lemma_sender_push(channel, data, Seq::empty(), offer);
    assert(Seq::empty().push(offer) =~= seq![offer]);
    lemma_sender_push(channel, data, seq![offer], wake);
    assert(seq![offer].push(wake) =~= seq![offer, wake]);
}

/// A poll is in order between polls, and its result tells where it leaves the future: with the
/// value received, waiting with the waker of this poll, or spent.
pub proof fn law_a_poll_is_in_order<R>(
    channel: Arc<Parts<Slot<R>>>,
    stage: ReceiverStage,
    waker: Waker,
    first: Slot<R>,
    second: Slot<R>,
)
    requires
        stage is Idle || stage is Parked,
    ensures
        receiver_from(channel, stage, poll_calls(channel, waker, first, second)) == Some(
            match poll_result(first, second) {
                Poll::Ready(_) => ReceiverStage::Received,
                Poll::Pending => ReceiverStage::Parked(waker),
                Poll::Spent => ReceiverStage::Spent,
            },
        ),
{
    let look = receive_call(channel, first);
    let register = Call::<Slot<R>>::Register { cell: channel.cell(), waker };
    lemma_receiver_push(channel, stage, Seq::empty(), look);
    assert(Seq::empty().push(look) =~= seq![look]);
    lemma_receiver_push(channel, stage, seq![look], register);
    assert(seq![look].push(register) =~= seq![look, register]);
    lemma_receiver_push(channel, stage, seq![look, register], receive_call(channel, second));
    assert(seq![look, register].push(receive_call(channel, second)) =~= seq![
        look,
        register,
        receive_call(channel, second),
    ]);
}

/// A hangup is in order between polls, and leaves the future closed.
pub proof fn law_a_hangup_is_in_order<R>(
    channel: Arc<Parts<Slot<R>>>,
    stage: ReceiverStage,
    found: Slot<R>,
)
    requires
        stage is Idle || stage is Parked || stage is Received || stage is Spent,
    ensures
        receiver_from(channel, stage, hang_up_calls(channel, found)) == Some(ReceiverStage::Closed),
{
    let mark = hang_up_call(channel, found);
    lemma_receiver_push(channel, stage, Seq::empty(), mark);
    assert(Seq::empty().push(mark) =~= seq![mark]);
    let raise = Call::<Slot<R>>::Raise { flag: channel.flag() };
    lemma_receiver_push(channel, stage, seq![mark], raise);
    assert(seq![mark].push(raise) =~= seq![mark, raise]);
}

/// What a send leaves in an empty slot, the next poll returns: at its first look if it begins after
/// the send, and at its second if the send comes in between.
pub proof fn law_what_a_send_leaves_a_poll_returns<R>(data: R, other: Slot<R>)
    ensures
        poll_result(Slot::Empty.after_send(data), other) == Poll::Ready(data),
        poll_result(Slot::Empty, Slot::Empty.after_send(data)) == Poll::Ready(data),
        poll_result(Slot::<R>::Empty, Slot::<R>::Empty) == Poll::<R>::Pending,
        Slot::Empty.after_send(data).after_receive() == Slot::<R>::Gone,
{
}

/// A hangup that finds what a send left, or what a poll left of that, is no cancellation, and
/// takes out a value that no poll has taken; one that finds a slot that was never sent to is a
/// cancellation. Into what a hangup leaves, nothing can be sent.
pub proof fn law_what_a_hangup_finds_and_leaves<R>(data: R)
    ensures
        Slot::<R>::Empty.after_receive().drop_state() == DropState::Cancelled,
        Slot::Empty.after_send(data).drop_state() == DropState::NotCancelled,
        Slot::Empty.after_send(data).payload() == Some(data),
        Slot::Empty.after_send(data).after_receive().drop_state() == DropState::NotCancelled,
        Slot::Empty.after_send(data).after_receive().payload() is None,
        Slot::<R>::FutureHangup.after_send(data) == Slot::<R>::FutureHangup,
        Slot::<R>::FutureHangup.refused(data) == Some(data),
{
}

} // verus!
