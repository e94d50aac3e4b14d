//! Both ends of a continuation at work together, in any interleaving of their calls.
//!
//! A [`World`] is everything that the two ends share and have done. A run is a sequence of calls of
//! either end, and of reads of the flag, in the order in which they take effect. The laws in this
//! module hold after every run, so they hold however the threads that own the two ends are
//! scheduled.
//!
//! The calls of a run are those that the ends record, each with the lock, the waker cell or the flag
//! that it acts on. The contracts of the ends say that these are all the calls they make, in which
//! order, and that they act on what the two ends share. That such calls make up a run rests on what
//! shared memory does, as [`Memory::next`] and [`World::next`] put it: the lock lends the slot as
//! its last holder left it, a read of the flag tells whether it was raised, and a wake notifies the
//! waker that was registered last. [`law_runs_are_interleavings`] shows that nothing else is
//! assumed.

use crate::access::{Call, Parts};
use crate::future::{Future, Stage};
use crate::sender::Sender;
use crate::slot::{DropState, Slot};
use crate::steps::{
    hang_up_call, hang_up_calls, hangs_up, law_a_hangup_is_in_order, law_a_poll_is_in_order,
    law_a_send_is_in_order, lemma_receiver_concat, lemma_receiver_push, lemma_sender_push,
    offer_call, poll_calls, poll_result, polls, receive_call, receiver_after, receiver_from,
    receiver_next, send_calls, sender_after, sender_next, sends, Poll, ReceiverStage, SenderStage,
};
use std::sync::atomic::{AtomicBool, Ordering};
use std::sync::{Arc, Mutex};
use std::task::Waker;
use vstd::prelude::*;

verus! {

/// One event of a run.
#[verifier::reject_recursive_types(R)]
pub enum Step<R> {
    /// A call of the sender.
    Sender(Call<Slot<R>>),
    /// A call of the future.
    Receiver(Call<Slot<R>>),
    /// A read of `flag` by the sender, and what it told.
    Look { flag: AtomicBool, told: bool },
}

/// The slot and the flag of a channel.
pub struct Memory<R> {
    /// The slot.
    pub slot: Slot<R>,
    /// Whether the flag has been raised.
    pub raised: bool,
}

impl<R> Memory<R> {
    /// What a call of either end leaves in the memory of `channel`; `None` if it did not find what
    /// is there. A call that acts on something else finds and leaves nothing here.
    pub open spec fn after_call(
        self,
        channel: Arc<Parts<Slot<R>>>,
        call: Call<Slot<R>>,
    ) -> Option<Memory<R>> {
        match call {
            Call::Lend { lock, found, left } => if lock != channel.lock() {
                Some(self)
            } else if found == self.slot {
                Some(Memory { slot: left, ..self })
            } else {
                None
            },
            Call::Raise { flag } => if flag == channel.flag() {
                Some(Memory { raised: true, ..self })
            } else {
                Some(self)
            },
            Call::Wake { .. } | Call::Register { .. } => Some(self),
        }
    }

    /// What a step leaves in the memory of `channel`; `None` if it did not find what is there.
    pub open spec fn next(self, channel: Arc<Parts<Slot<R>>>, step: Step<R>) -> Option<Memory<R>> {
        match step {
            Step::Sender(call) => self.after_call(channel, call),
            Step::Receiver(call) => self.after_call(channel, call),
            Step::Look { flag, told } => if flag == channel.flag() ==> told == self.raised {
                Some(self)
            } else {
                None
            },
        }
    }
}

/// The slot and the flag after a run, if each step found what the steps before it had left.
pub open spec fn memory_after<R>(
    channel: Arc<Parts<Slot<R>>>,
    steps: Seq<Step<R>>,
) -> Option<Memory<R>>
    decreases steps.len(),
{
    if steps.len() == 0 {
        Some(Memory { slot: Slot::Empty, raised: false })
    } else {
        match memory_after(channel, steps.drop_last()) {
            Some(memory) => memory.next(channel, steps.last()),
            None => None,
        }
    }
}

/// The calls of the sender among the steps of a run.
pub open spec fn sender_calls<R>(steps: Seq<Step<R>>) -> Seq<Call<Slot<R>>>
    decreases steps.len(),
{
    if steps.len() == 0 {
        Seq::empty()
    } else {
        match steps.last() {
            Step::Sender(call) => sender_calls(steps.drop_last()).push(call),
            _ => sender_calls(steps.drop_last()),
        }
    }
}

/// The calls of the future among the steps of a run.
pub open spec fn receiver_calls<R>(steps: Seq<Step<R>>) -> Seq<Call<Slot<R>>>
    decreases steps.len(),
{
    if steps.len() == 0 {
        Seq::empty()
    } else {
        match steps.last() {
            Step::Receiver(call) => receiver_calls(steps.drop_last()).push(call),
            _ => receiver_calls(steps.drop_last()),
        }
    }
}

/// The waker that was registered last in a run, if any was.
pub open spec fn last_registered<R>(
    channel: Arc<Parts<Slot<R>>>,
    steps: Seq<Step<R>>,
) -> Option<Waker>
    decreases steps.len(),
{
    if steps.len() == 0 {
        None
    } else {
        match steps.last() {
            Step::Receiver(Call::Register { cell, waker }) => if cell == channel.cell() {
                Some(waker)
            } else {
                last_registered(channel, steps.drop_last())
            },
            _ => last_registered(channel, steps.drop_last()),
        }
    }
}

/// A continuation with both of its ends.
#[verifier::reject_recursive_types(R)]
pub struct World<R> {
    /// What the two ends share.
    pub channel: Arc<Parts<Slot<R>>>,
    /// The value that the sender sends, if it sends one.
    pub data: R,
    /// The slot and the flag.
    pub memory: Memory<R>,
    /// The waker that the next wake will notify.
    pub registered: Option<Waker>,
    /// The wakers that sends have notified, in order.
    ///
    /// A registration that overlaps with a wake may notify its own waker as well, which is
    /// harmless and not counted here.
    pub woken: Seq<Waker>,
    /// How far the sender has come.
    pub sender: SenderStage,
    /// How far the future has come.
    pub receiver: ReceiverStage,
    /// The values that polls have returned, in order.
    pub received: Seq<R>,
    /// The values that were dropped without being received, in order.
    pub discarded: Seq<R>,
}

impl<R> World<R> {
    /// A continuation that has just been created, whose sender has `data` to send.
    pub open spec fn initial(channel: Arc<Parts<Slot<R>>>, data: R) -> World<R> {
        World {
            channel,
            data,
            memory: Memory { slot: Slot::Empty, raised: false },
            registered: None,
            woken: Seq::empty(),
            sender: SenderStage::Unsent,
            receiver: ReceiverStage::Idle,
            received: Seq::empty(),
            discarded: Seq::empty(),
        }
    }

    /// What a call of the sender leads to, if it is in order and found what was there.
    ///
    /// A value that the slot does not take is dropped.
    pub open spec fn sender_step(self, call: Call<Slot<R>>) -> Option<World<R>> {
        match (
            sender_next(self.channel, self.data, self.sender, call),
            self.memory.after_call(self.channel, call),
        ) {
            (Some(sender), Some(memory)) => Some(
                match call {
                    Call::Wake { .. } => World {
                        sender,
                        memory,
                        registered: None,
                        woken: match self.registered {
                            Some(waker) => self.woken.push(waker),
                            None => self.woken,
                        },
                        ..self
                    },
                    _ => World {
                        sender,
                        memory,
                        discarded: if sender is Refused {
                            self.discarded.push(self.data)
                        } else {
                            self.discarded
                        },
                        ..self
                    },
                },
            ),
            _ => None,
        }
    }

    /// What a call of the future leads to, if it is in order and found what was there.
    ///
    /// A value that leaves the slot is received, or dropped if the future hangs up.
    pub open spec fn receiver_step(self, call: Call<Slot<R>>) -> Option<World<R>> {
        match (
            receiver_next(self.channel, self.receiver, call),
            self.memory.after_call(self.channel, call),
        ) {
            (Some(receiver), Some(memory)) => Some(
                match call {
                    Call::Lend { found: Slot::Data(data), .. } => if receiver is Received {
                        World { receiver, memory, received: self.received.push(data), ..self }
                    } else {
                        World { receiver, memory, discarded: self.discarded.push(data), ..self }
                    },
                    Call::Register { waker, .. } => World {
                        receiver,
                        memory,
                        registered: Some(waker),
                        ..self
                    },
                    _ => World { receiver, memory, ..self },
                },
            ),
            _ => None,
        }
    }

    /// What a step leads to; `None` if its end may not take it now, or if it did not find what was
    /// there.
    pub open spec fn next(self, step: Step<R>) -> Option<World<R>> {
        match step {
            Step::Sender(call) => self.sender_step(call),
            Step::Receiver(call) => self.receiver_step(call),
            Step::Look { flag, told } => if flag == self.channel.flag() ==> told
                == self.memory.raised {
                Some(self)
            } else {
                None
            },
        }
    }

    /// What a run of steps leads to from here; `None` if one of them is impossible.
    pub open spec fn after(self, steps: Seq<Step<R>>) -> Option<World<R>>
        decreases steps.len(),
    {
        if steps.len() == 0 {
            Some(self)
        } else {
            match self.after(steps.drop_last()) {
                Some(world) => world.next(steps.last()),
                None => None,
            }
        }
    }

    /// The value that has been handed to the slot, taken or not, if any has.
    pub open spec fn sent(self) -> Option<R> {
        if self.sender is Unsent {
            None
        } else {
            Some(self.data)
        }
    }

    /// The values that exist: received, dropped, or still in the slot.
    pub open spec fn accounted(self) -> Seq<R> {
        self.received + self.discarded + match self.memory.slot.payload() {
            Some(data) => seq![data],
            None => Seq::empty(),
        }
    }

    /// Whether the future can still receive the value.
    pub open spec fn listening(self) -> bool {
        self.receiver is Idle || self.receiver is Missed || self.receiver is Registered
            || self.receiver is Parked
    }

    /// The slot and the flag agree with how far both ends have come.
    pub open spec fn memory_agrees(self) -> bool {
        &&& self.memory.raised == (self.receiver is Closed)
        &&& match self.memory.slot {
            Slot::Empty => self.sender is Unsent && self.listening(),
            Slot::Data(data) => {
                &&& data == self.data
                &&& self.sender is Accepted || self.sender is Notified
                &&& self.listening()
            },
            Slot::Gone => {
                &&& self.sender is Accepted || self.sender is Notified
                &&& self.receiver is Received
            },
            Slot::FutureHangup => self.receiver is HungUp || self.receiver is Closed,
        }
    }

    /// Whatever has been sent is in exactly one place.
    pub open spec fn values_agree(self) -> bool {
        &&& self.accounted() == match self.sent() {
            Some(data) => seq![data],
            None => Seq::empty(),
        }
        &&& self.receiver is Received ==> self.received.len() == 1
        &&& self.listening() ==> self.received.len() == 0
    }

    /// Whoever waits will be woken, or has been.
    pub open spec fn wakes_agree(self) -> bool {
        &&& !(self.sender is Notified) ==> self.woken.len() == 0
        &&& self.woken.len() <= 1
        &&& match self.receiver {
            ReceiverStage::Registered(waker) => !(self.sender is Notified) ==> self.registered
                == Some(waker),
            ReceiverStage::Parked(waker) => {
                &&& !(self.sender is Notified) ==> self.registered == Some(waker)
                &&& self.sender is Notified ==> self.woken == seq![waker]
            },
            _ => true,
        }
    }

    /// What holds after every run.
    pub open spec fn inv(self) -> bool {
        &&& self.memory_agrees()
        &&& self.values_agree()
        &&& self.wakes_agree()
    }
}

/// The world after a run from the start, with `data` to send.
pub open spec fn reaches<R>(
    channel: Arc<Parts<Slot<R>>>,
    data: R,
    steps: Seq<Step<R>>,
    world: World<R>,
) -> bool {
    World::initial(channel, data).after(steps) == Some(world)
}

/// Whether `steps` are the calls of the two ends in some order, and of looks, and each step finds
/// in memory what the steps before it left there.
pub open spec fn interleaves<R>(
    channel: Arc<Parts<Slot<R>>>,
    steps: Seq<Step<R>>,
    sender: Seq<Call<Slot<R>>>,
    receiver: Seq<Call<Slot<R>>>,
) -> bool {
    &&& sender_calls(steps) == sender
    &&& receiver_calls(steps) == receiver
    &&& memory_after(channel, steps) is Some
}

/// The invariant survives every step.
proof fn lemma_next_inv<R>(world: World<R>, step: Step<R>)
    requires
        world.inv(),
        world.next(step) is Some,
    ensures
        world.next(step)->Some_0.inv(),
{
    let post = world.next(step)->Some_0;
    match step {
        Step::Sender(Call::Wake { .. }) => {
            assert(post.accounted() =~= world.accounted());
            assert(world.woken =~= Seq::empty());
        },
        Step::Sender(call) => {
            assert(post.accounted() =~= seq![world.data]);
        },
        Step::Receiver(call) => {
            assert(post.accounted() =~= world.accounted());
        },
        Step::Look { flag, told } => {},
    }
}

/// A further step of a run leads from the world it had reached to the next.
proof fn lemma_after_push<R>(world: World<R>, steps: Seq<Step<R>>, step: Step<R>)
    ensures
        world.after(steps.push(step)) == match world.after(steps) {
            Some(reached) => reached.next(step),
            None => None,
        },
{
    assert(steps.push(step).drop_last() =~= steps);
}

/// A run may be continued by another.
proof fn lemma_after_concat<R>(start: World<R>, steps: Seq<Step<R>>, more: Seq<Step<R>>)
    requires
        start.after(steps) is Some,
    ensures
        start.after(steps + more) == start.after(steps)->Some_0.after(more),
    decreases more.len(),
{
    if more.len() == 0 {
        assert(steps + more =~= steps);
    } else {
        lemma_after_concat(start, steps, more.drop_last());
        assert(steps + more =~= (steps + more.drop_last()).push(more.last()));
        lemma_after_push(start, steps + more.drop_last(), more.last());
    }
}

/// The invariant holds at the start and after every run, and the value to send stays the same.
proof fn lemma_inv<R>(channel: Arc<Parts<Slot<R>>>, data: R, steps: Seq<Step<R>>, world: World<R>)
    requires
        reaches(channel, data, steps, world),
    ensures
        world.inv(),
        world.data == data,
        world.channel == channel,
    decreases steps.len(),
{
    if steps.len() == 0 {
        assert(World::initial(channel, data).accounted() =~= Seq::empty());
    } else {
        let before = World::initial(channel, data).after(steps.drop_last())->Some_0;
        lemma_inv(channel, data, steps.drop_last(), before);
        lemma_next_inv(before, steps.last());
    }
}

/// Runs are what the two ends make of memory between them. If each end keeps the order of its
/// calls, and each step finds in memory what was left there, then the steps are a run. In every
/// run, each end keeps its order and finds what was left, whatever the other end does in between.
pub proof fn law_runs_are_interleavings<R>(
    channel: Arc<Parts<Slot<R>>>,
    data: R,
    steps: Seq<Step<R>>,
)
    ensures
        World::initial(channel, data).after(steps) is Some <==> {
            &&& sender_after(channel, data, sender_calls(steps)) is Some
            &&& receiver_after(channel, receiver_calls(steps)) is Some
            &&& memory_after(channel, steps) is Some
        },
        World::initial(channel, data).after(steps) matches Some(world) ==> {
            &&& sender_after(channel, data, sender_calls(steps)) == Some(world.sender)
            &&& receiver_after(channel, receiver_calls(steps)) == Some(world.receiver)
            &&& memory_after(channel, steps) == Some(world.memory)
            &&& world.data == data
            &&& world.channel == channel
        },
    decreases steps.len(),
{
    if steps.len() > 0 {
        let rest = steps.drop_last();
        law_runs_are_interleavings(channel, data, rest);
        match steps.last() {
            Step::Sender(call) => lemma_sender_push(channel, data, sender_calls(rest), call),
            Step::Receiver(call) => lemma_receiver_push(
                channel,
                ReceiverStage::Idle,
                receiver_calls(rest),
                call,
            ),
            Step::Look { .. } => {},
        }
    }
}

/// What a sender and a future of one channel have recorded makes up a run, in whatever interleaving
/// it took effect, as long as memory lends and tells what was left there. So the laws of runs hold
/// of the two ends. What the ends tell of themselves is what the run shows.
pub proof fn law_the_ends_make_a_run<R>(
    sender: Sender<R>,
    future: Future<R>,
    steps: Seq<Step<R>>,
)
    requires
        sender.wf(),
        future.wf(),
        sender.channel() == future.channel(),
        interleaves(sender.channel(), steps, sender.calls(), future.calls()),
    ensures
        exists|data: R|
            {
                &&& #[trigger] World::initial(sender.channel(), data).after(steps) matches Some(
                    world,
                )
                &&& sender.sent() ==> sends(sender.channel(), Seq::empty(), sender.calls(), data)
                &&& sender.sent() <==> world.sent() is Some
                &&& future.stage() == Stage::Open <==> world.listening()
                &&& future.stage() == Stage::Received <==> world.receiver is Received
                &&& future.stage() == Stage::Closed <==> world.memory.slot is FutureHangup
                &&& future.stage() == Stage::Closed <==> world.memory.raised
                &&& future.stage() == Stage::Received ==> world.received == seq![data]
                &&& future.stage() == Stage::Open ==> world.received == Seq::<R>::empty()
                &&& future.stage() != Stage::Spent
            },
{
    let channel = sender.channel();
    let data: R = if sender.sent() {
        let (data, found) = choose|data: R, found: Slot<R>|
            sender.calls() == #[trigger] send_calls(channel, data, found);
        law_a_send_is_in_order(channel, data, found);
        assert(sender.calls() =~= Seq::empty() + send_calls(channel, data, found));
        data
    } else {
        arbitrary()
    };
    law_runs_are_interleavings(channel, data, steps);
    let world = World::initial(channel, data).after(steps)->Some_0;
    lemma_inv(channel, data, steps, world);
    law_the_sent_value_is_received(channel, data, steps, world);
    assert(world.listening() ==> world.received =~= Seq::<R>::empty());
}

/// An offer only ever finds the slot empty or hung up, a look of a poll only ever finds it empty or
/// holding the value, and the drop of a future never finds it hung up already. A poll never finds
/// the slot spent.
pub proof fn law_only_expected_slots_are_found<R>(
    channel: Arc<Parts<Slot<R>>>,
    data: R,
    steps: Seq<Step<R>>,
    world: World<R>,
    found: Slot<R>,
)
    requires
        reaches(channel, data, steps, world),
    ensures
        world.next(Step::Sender(offer_call(channel, data, found))) is Some ==> found is Empty
            || found is FutureHangup,
        world.listening() && world.next(Step::Receiver(receive_call(channel, found))) is Some
            ==> found is Empty || found == Slot::Data(data),
        world.next(Step::Receiver(hang_up_call(channel, found))) is Some ==> !(
        found is FutureHangup),
        !(world.receiver is Spent),
{
    lemma_inv(channel, data, steps, world);
}

/// A value is neither lost nor duplicated: what has been sent is received, dropped or still in the
/// slot, in exactly one of these places, and nothing else is in any of them.
pub proof fn law_a_value_is_in_one_place<R>(
    channel: Arc<Parts<Slot<R>>>,
    data: R,
    steps: Seq<Step<R>>,
    world: World<R>,
)
    requires
        reaches(channel, data, steps, world),
    ensures
        world.sent() is None ==> world.accounted() == Seq::<R>::empty(),
        world.sent() is Some ==> world.accounted() == seq![data],
{
    lemma_inv(channel, data, steps, world);
}

/// At most one value is received, and it is the one that was sent.
pub proof fn law_the_sent_value_is_received<R>(
    channel: Arc<Parts<Slot<R>>>,
    data: R,
    steps: Seq<Step<R>>,
    world: World<R>,
)
    requires
        reaches(channel, data, steps, world),
    ensures
        world.received.len() == 0 || world.received == seq![data],
        world.received.len() > 0 ==> world.sent() is Some,
        world.receiver is Received ==> world.received.len() == 1,
{
    lemma_inv(channel, data, steps, world);
    if world.received.len() > 0 {
        assert(world.accounted()[0] == world.received[0]);
        assert(world.accounted().len() == 1);
        assert(world.received =~= seq![data]);
    }
}

/// Once a send and the drop of the future have come to their ends, in whatever interleaving with
/// each other and with polls, the value has been received or dropped, exactly one of the two and
/// exactly once.
pub proof fn law_a_value_is_received_or_dropped_once<R>(
    channel: Arc<Parts<Slot<R>>>,
    data: R,
    found: Slot<R>,
    receiver: Seq<Call<Slot<R>>>,
    steps: Seq<Step<R>>,
)
    requires
        receiver_after(channel, receiver) == Some(ReceiverStage::Closed),
        interleaves(channel, steps, send_calls(channel, data, found), receiver),
    ensures
        World::initial(channel, data).after(steps) matches Some(world) && world.received
            + world.discarded == seq![data],
{
    law_a_send_is_in_order(channel, data, found);
    law_runs_are_interleavings(channel, data, steps);
    let world = World::initial(channel, data).after(steps)->Some_0;
    lemma_inv(channel, data, steps, world);
    assert(world.accounted() =~= world.received + world.discarded);
}

/// A value that has been taken waits in the slot until the future looks for it: the next look of
/// a future that is still there receives it. This holds from the moment the value is taken, before
/// anybody is woken for it.
pub proof fn law_a_sent_value_awaits_the_next_look<R>(
    channel: Arc<Parts<Slot<R>>>,
    data: R,
    steps: Seq<Step<R>>,
    world: World<R>,
    found: Slot<R>,
)
    requires
        reaches(channel, data, steps, world),
        world.sender is Accepted || world.sender is Notified,
        world.listening(),
    ensures
        world.memory.slot == Slot::Data(data),
        world.next(Step::Receiver(receive_call(channel, found))) matches Some(later) ==> {
            &&& found == Slot::Data(data)
            &&& later.receiver is Received
            &&& later.received == seq![data]
        },
{
    lemma_inv(channel, data, steps, world);
    assert(world.received =~= Seq::empty());
}

/// Until the future makes a call of its own, a value that was taken stays in the slot.
proof fn lemma_a_taken_value_stays<R>(world: World<R>, more: Seq<Step<R>>, later: World<R>)
    requires
        world.memory.slot == Slot::Data(world.data),
        world.sender is Accepted || world.sender is Notified,
        world.after(more) == Some(later),
    ensures
        later.data == world.data,
        later.sender is Accepted || later.sender is Notified,
        receiver_calls(more).len() == 0 ==> later.memory.slot == world.memory.slot,
        receiver_calls(more).len() > 0 && receiver_calls(more)[0] is Lend ==> receiver_calls(
            more,
        )[0]->found == Slot::Data(world.data),
    decreases more.len(),
{
    if more.len() > 0 {
        let rest = more.drop_last();
        lemma_a_taken_value_stays(world, rest, world.after(rest)->Some_0);
    }
}

/// Where the future stands follows from where it stood and from its own calls since.
proof fn lemma_receiver_from<R>(world: World<R>, more: Seq<Step<R>>, later: World<R>)
    requires
        world.after(more) == Some(later),
    ensures
        receiver_from(world.channel, world.receiver, receiver_calls(more)) == Some(
            later.receiver,
        ),
        later.channel == world.channel,
    decreases more.len(),
{
    if more.len() > 0 {
        let rest = more.drop_last();
        lemma_receiver_from(world, rest, world.after(rest)->Some_0);
        match more.last() {
            Step::Receiver(call) => lemma_receiver_push(
                world.channel,
                world.receiver,
                receiver_calls(rest),
                call,
            ),
            _ => {},
        }
    }
}

/// A poll that begins after a value has been taken returns that value, whatever the sender does
/// meanwhile.
pub proof fn law_a_poll_after_a_send_returns_the_value<R>(
    channel: Arc<Parts<Slot<R>>>,
    data: R,
    steps: Seq<Step<R>>,
    world: World<R>,
    more: Seq<Step<R>>,
    later: World<R>,
    waker: Waker,
    first: Slot<R>,
    second: Slot<R>,
)
    requires
        reaches(channel, data, steps, world),
        world.sender is Accepted || world.sender is Notified,
        world.receiver is Idle || world.receiver is Parked,
        world.after(more) == Some(later),
        receiver_calls(more) == poll_calls(channel, waker, first, second),
    ensures
        poll_result(first, second) == Poll::Ready(data),
        later.receiver is Received,
        later.received == seq![data],
{
    lemma_inv(channel, data, steps, world);
    lemma_a_taken_value_stays(world, more, later);
    assert(receiver_calls(more)[0] == receive_call(channel, first));
    lemma_receiver_from(world, more, later);
    law_a_poll_is_in_order(channel, world.receiver, waker, first, second);
    lemma_after_concat(World::initial(channel, data), steps, more);
    law_the_sent_value_is_received(channel, data, steps + more, later);
}

/// As long as nothing has been sent, the future finds the slot empty whenever it looks.
pub proof fn law_a_look_before_a_send_finds_nothing<R>(
    channel: Arc<Parts<Slot<R>>>,
    data: R,
    steps: Seq<Step<R>>,
    world: World<R>,
    found: Slot<R>,
)
    requires
        reaches(channel, data, steps, world),
        world.sent() is None,
        world.listening(),
        world.next(Step::Receiver(receive_call(channel, found))) is Some,
    ensures
        found is Empty,
{
    lemma_inv(channel, data, steps, world);
}

/// While nothing is sent, what the future finds under the lock is an empty slot until it hangs up.
proof fn lemma_finds_before_a_send<R>(
    channel: Arc<Parts<Slot<R>>>,
    data: R,
    steps: Seq<Step<R>>,
    world: World<R>,
    more: Seq<Step<R>>,
    later: World<R>,
)
    requires
        reaches(channel, data, steps, world),
        world.after(more) == Some(later),
        later.sent() is None,
    ensures
        forall|i: int|
            0 <= i < receiver_calls(more).len() && (#[trigger] receiver_calls(more)[i]) is Lend
                ==> receiver_calls(more)[i]->found is Empty,
    decreases more.len(),
{
    if more.len() > 0 {
        let rest = more.drop_last();
        let before = world.after(rest)->Some_0;
        lemma_finds_before_a_send(channel, data, steps, world, rest, before);
        lemma_after_concat(World::initial(channel, data), steps, rest);
        lemma_inv(channel, data, steps + rest, before);
    }
}

/// A poll that ends before anything is sent returns without a value, and its waker is the one to
/// be woken.
pub proof fn law_a_poll_before_a_send_is_pending<R>(
    channel: Arc<Parts<Slot<R>>>,
    data: R,
    steps: Seq<Step<R>>,
    world: World<R>,
    more: Seq<Step<R>>,
    later: World<R>,
    waker: Waker,
    first: Slot<R>,
    second: Slot<R>,
)
    requires
        reaches(channel, data, steps, world),
        world.receiver is Idle || world.receiver is Parked,
        world.after(more) == Some(later),
        receiver_calls(more) == poll_calls(channel, waker, first, second),
        later.sent() is None,
    ensures
        poll_result(first, second) == Poll::<R>::Pending,
        later.receiver == ReceiverStage::Parked(waker),
        later.registered == Some(waker),
{
    assert(first is Empty) by {
        lemma_finds_before_a_send(channel, data, steps, world, more, later);
        assert(receiver_calls(more)[0] == receive_call(channel, first));
    }
    assert(second is Empty) by {
        lemma_finds_before_a_send(channel, data, steps, world, more, later);
        assert(receiver_calls(more)[2] == receive_call(channel, second));
    }
    lemma_receiver_from(world, more, later);
    law_a_poll_is_in_order(channel, world.receiver, waker, first, second);
    lemma_after_concat(World::initial(channel, data), steps, more);
    lemma_inv(channel, data, steps + more, later);
}

/// Until a send has come to its end, the waker that was registered last is the one to be woken.
proof fn lemma_registered<R>(
    channel: Arc<Parts<Slot<R>>>,
    data: R,
    steps: Seq<Step<R>>,
    world: World<R>,
)
    requires
        reaches(channel, data, steps, world),
        !(world.sender is Notified),
    ensures
        world.registered == last_registered(channel, steps),
    decreases steps.len(),
{
    if steps.len() > 0 {
        let before = World::initial(channel, data).after(steps.drop_last())->Some_0;
        lemma_registered(channel, data, steps.drop_last(), before);
        lemma_inv(channel, data, steps.drop_last(), before);
    }
}

/// A send wakes the waker that was registered last, and no other; if none was registered, it wakes
/// nobody. The value is in the slot by then, unless the future has received it or is gone.
pub proof fn law_a_send_wakes_the_last_waker<R>(
    channel: Arc<Parts<Slot<R>>>,
    data: R,
    steps: Seq<Step<R>>,
    world: World<R>,
)
    requires
        reaches(channel, data, steps, world),
        world.next(Step::Sender(Call::Wake { cell: channel.cell() })) is Some,
    ensures
        world.next(Step::Sender(Call::Wake { cell: channel.cell() }))->Some_0.woken
            == match last_registered(channel, steps) {
            Some(waker) => seq![waker],
            None => Seq::empty(),
        },
        world.listening() ==> world.memory.slot == Slot::Data(data),
{
    lemma_inv(channel, data, steps, world);
    lemma_registered(channel, data, steps, world);
    assert(world.woken =~= Seq::empty());
}

/// No wakeup is lost: when a send has come to its end with the value taken, and the last poll has
/// returned without it, then the waker of that poll, and no other, has been woken. This holds in
/// whatever interleaving the calls of the send and of the polls took effect.
pub proof fn law_no_wakeup_is_lost<R>(
    channel: Arc<Parts<Slot<R>>>,
    data: R,
    receiver: Seq<Call<Slot<R>>>,
    steps: Seq<Step<R>>,
    waker: Waker,
)
    requires
        receiver_after(channel, receiver) == Some(ReceiverStage::Parked(waker)),
        interleaves(channel, steps, send_calls(channel, data, Slot::Empty), receiver),
    ensures
        World::initial(channel, data).after(steps) matches Some(world) && world.woken == seq![waker]
            && world.memory.slot == Slot::Data(data),
{
    law_a_send_is_in_order(channel, data, Slot::Empty);
    law_runs_are_interleavings(channel, data, steps);
    lemma_inv(channel, data, steps, World::initial(channel, data).after(steps)->Some_0);
}

/// A send to a dropped future wakes nobody, and the value is dropped.
pub proof fn law_a_refused_send_has_no_effect<R>(
    channel: Arc<Parts<Slot<R>>>,
    data: R,
    found: Slot<R>,
    receiver: Seq<Call<Slot<R>>>,
    steps: Seq<Step<R>>,
)
    requires
        !(found is Empty),
        receiver_after(channel, receiver) is Some,
        interleaves(channel, steps, send_calls(channel, data, found), receiver),
    ensures
        found is FutureHangup,
        World::initial(channel, data).after(steps) matches Some(world) && {
            &&& world.woken == Seq::<Waker>::empty()
            &&& world.received == Seq::<R>::empty()
            &&& world.discarded == seq![data]
        },
{
    law_a_send_is_in_order(channel, data, found);
    law_runs_are_interleavings(channel, data, steps);
    let world = World::initial(channel, data).after(steps)->Some_0;
    lemma_inv(channel, data, steps, world);
    lemma_refused(channel, data, steps, world);
    assert(sender_calls(steps)[0] == offer_call(channel, data, found));
    assert(world.woken =~= Seq::empty());
    assert(world.received =~= Seq::empty());
    assert(world.accounted() =~= world.discarded);
}

/// A sender that was refused had found the slot hung up before anything was received.
proof fn lemma_refused<R>(
    channel: Arc<Parts<Slot<R>>>,
    data: R,
    steps: Seq<Step<R>>,
    world: World<R>,
)
    requires
        reaches(channel, data, steps, world),
    ensures
        world.sender is Unsent <==> sender_calls(steps).len() == 0,
        world.sender is Refused ==> {
            &&& sender_calls(steps)[0] is Lend
            &&& sender_calls(steps)[0]->found is FutureHangup
            &&& world.received.len() == 0
            &&& world.memory.slot is FutureHangup
        },
    decreases steps.len(),
{
    if steps.len() > 0 {
        let before = World::initial(channel, data).after(steps.drop_last())->Some_0;
        lemma_refused(channel, data, steps.drop_last(), before);
        lemma_inv(channel, data, steps.drop_last(), before);
    }
}

/// A send wakes at most one waker, and only for a value that was taken.
pub proof fn law_a_wake_follows_a_value<R>(
    channel: Arc<Parts<Slot<R>>>,
    data: R,
    steps: Seq<Step<R>>,
    world: World<R>,
)
    requires
        reaches(channel, data, steps, world),
    ensures
        world.woken.len() <= 1,
        world.woken.len() > 0 ==> world.sender is Notified,
{
    lemma_inv(channel, data, steps, world);
}

/// A dropped future makes no further call but to raise the flag.
proof fn lemma_hung_up_stays<R>(world: World<R>, more: Seq<Step<R>>, later: World<R>)
    requires
        world.receiver is HungUp || world.receiver is Closed,
        world.after(more) == Some(later),
    ensures
        later.receiver is HungUp || later.receiver is Closed,
        world.receiver is Closed ==> later.receiver is Closed,
    decreases more.len(),
{
    if more.len() > 0 {
        lemma_hung_up_stays(world, more.drop_last(), world.after(more.drop_last())->Some_0);
    }
}

/// A hangup is final: the slot stays hung up and nothing more is received, whatever follows. A
/// value that is sent afterwards is dropped, and nobody is woken for it.
pub proof fn law_a_hangup_is_final<R>(
    channel: Arc<Parts<Slot<R>>>,
    data: R,
    steps: Seq<Step<R>>,
    world: World<R>,
    more: Seq<Step<R>>,
    later: World<R>,
)
    requires
        reaches(channel, data, steps, world),
        world.memory.slot is FutureHangup,
        world.after(more) == Some(later),
    ensures
        later.memory.slot is FutureHangup,
        later.received == world.received,
        later.discarded == if world.sent() is None && later.sent() is Some {
            world.discarded.push(data)
        } else {
            world.discarded
        },
        world.sent() is None ==> later.woken == world.woken && !(later.sender is Accepted) && !(
        later.sender is Notified),
    decreases more.len(),
{
    lemma_inv(channel, data, steps, world);
    if more.len() > 0 {
        let rest = more.drop_last();
        let before = world.after(rest)->Some_0;
        law_a_hangup_is_final(channel, data, steps, world, rest, before);
        lemma_hung_up_stays(world, rest, before);
        if world.sent() is Some {
            lemma_sent_stays(world, rest, before);
        }
        lemma_after_concat(World::initial(channel, data), steps, rest);
        lemma_inv(channel, data, steps + rest, before);
    }
}

/// A future counts as cancelled exactly when it hangs up before a send takes effect; then nothing
/// is ever received, nobody is ever woken, and a value that is sent later is dropped.
pub proof fn law_cancelled_means_nothing_was_sent<R>(
    channel: Arc<Parts<Slot<R>>>,
    data: R,
    steps: Seq<Step<R>>,
    world: World<R>,
    found: Slot<R>,
    more: Seq<Step<R>>,
    later: World<R>,
)
    requires
        reaches(channel, data, steps, world),
        world.next(Step::Receiver(hang_up_call(channel, found))) is Some,
        world.next(Step::Receiver(hang_up_call(channel, found)))->Some_0.after(more) == Some(later),
    ensures
        found.drop_state() == DropState::Cancelled <==> world.sent() is None,
        found.drop_state() == DropState::Cancelled <==> sender_calls(steps).len() == 0,
        found.drop_state() == DropState::Cancelled ==> {
            &&& later.received == Seq::<R>::empty()
            &&& later.woken == Seq::<Waker>::empty()
            &&& later.sent() is Some ==> later.discarded == seq![data]
        },
        found.drop_state() == DropState::NotCancelled ==> later.received + later.discarded
            == seq![data],
{
    let step = Step::Receiver(hang_up_call(channel, found));
    let hung_up = world.next(step)->Some_0;
    lemma_inv(channel, data, steps, world);
    lemma_refused(channel, data, steps, world);
    lemma_after_push(World::initial(channel, data), steps, step);
    lemma_inv(channel, data, steps.push(step), hung_up);
    law_a_hangup_is_final(channel, data, steps.push(step), hung_up, more, later);
    lemma_after_concat(World::initial(channel, data), steps.push(step), more);
    lemma_inv(channel, data, steps.push(step) + more, later);
    lemma_refused(channel, data, steps.push(step) + more, later);
    assert(later.accounted() =~= later.received + later.discarded);
    if found is Empty {
        assert(world.received =~= Seq::empty());
        assert(world.woken =~= Seq::empty());
        assert(later.discarded =~= later.accounted());
    } else {
        assert(later.sent() is Some) by {
            lemma_sent_stays(hung_up, more, later);
        }
    }
}

/// What has been sent stays sent.
proof fn lemma_sent_stays<R>(world: World<R>, more: Seq<Step<R>>, later: World<R>)
    requires
        world.sent() is Some,
        world.after(more) == Some(later),
    ensures
        later.sent() is Some,
    decreases more.len(),
{
    if more.len() > 0 {
        lemma_sent_stays(world, more.drop_last(), world.after(more.drop_last())->Some_0);
    }
}

/// A sender that looks is told that the future is gone exactly when the future has been dropped,
/// and changes nothing by looking.
pub proof fn law_a_look_tells_of_a_dropped_future<R>(
    channel: Arc<Parts<Slot<R>>>,
    data: R,
    steps: Seq<Step<R>>,
    world: World<R>,
    told: bool,
)
    requires
        reaches(channel, data, steps, world),
        world.next(Step::Look { flag: channel.flag(), told }) is Some,
    ensures
        told <==> world.receiver is Closed,
        told ==> world.memory.slot is FutureHangup,
        world.next(Step::Look { flag: channel.flag(), told }) == Some(world),
{
    lemma_inv(channel, data, steps, world);
}

/// Once a look has told that the future is gone, every later look tells the same, and a value that
/// is offered is refused without effect.
pub proof fn law_a_look_is_final<R>(
    channel: Arc<Parts<Slot<R>>>,
    data: R,
    steps: Seq<Step<R>>,
    world: World<R>,
    more: Seq<Step<R>>,
    later: World<R>,
    told: bool,
    found: Slot<R>,
)
    requires
        reaches(channel, data, steps, world),
        world.next(Step::Look { flag: channel.flag(), told: true }) is Some,
        world.after(more) == Some(later),
    ensures
        later.next(Step::Look { flag: channel.flag(), told }) is Some ==> told,
        later.next(Step::Sender(offer_call(channel, data, found))) matches Some(offered) ==> {
            &&& found.refused(data) == Some(data)
            &&& offered.memory == later.memory
            &&& offered.received == later.received
            &&& offered.woken == later.woken
        },
{
    lemma_inv(channel, data, steps, world);
    lemma_hung_up_stays(world, more, later);
    lemma_after_concat(World::initial(channel, data), steps, more);
    lemma_inv(channel, data, steps + more, later);
}

/// A sender that never sends leaves its future as it is: nobody is woken, nothing is received, a
/// poll finds the slot empty, and the drop of the future is a cancellation.
pub proof fn law_an_unsent_sender_leaves_the_future_alone<R>(
    channel: Arc<Parts<Slot<R>>>,
    data: R,
    steps: Seq<Step<R>>,
    world: World<R>,
    found: Slot<R>,
)
    requires
        reaches(channel, data, steps, world),
        sender_calls(steps).len() == 0,
    ensures
        world.woken == Seq::<Waker>::empty(),
        world.received == Seq::<R>::empty(),
        world.discarded == Seq::<R>::empty(),
        world.next(Step::Receiver(receive_call(channel, found))) is Some ==> found is Empty,
        world.next(Step::Receiver(hang_up_call(channel, found))) is Some ==> found.drop_state()
            == DropState::Cancelled,
{
    lemma_inv(channel, data, steps, world);
    lemma_refused(channel, data, steps, world);
    assert(world.woken =~= Seq::empty());
    assert(world.accounted().len() == 0);
    assert(world.received =~= Seq::empty());
    assert(world.discarded =~= Seq::empty());
}

/// The calls of each end in a run that is continued are those of the run, and then those of its
/// continuation.
proof fn lemma_calls_concat<R>(steps: Seq<Step<R>>, more: Seq<Step<R>>)
    ensures
        sender_calls(steps + more) == sender_calls(steps) + sender_calls(more),
        receiver_calls(steps + more) == receiver_calls(steps) + receiver_calls(more),
    decreases more.len(),
{
    if more.len() == 0 {
        assert(steps + more =~= steps);
        assert(sender_calls(steps) + sender_calls(more) =~= sender_calls(steps));
        assert(receiver_calls(steps) + receiver_calls(more) =~= receiver_calls(steps));
    } else {
        let rest = more.drop_last();
        lemma_calls_concat(steps, rest);
        assert((steps + more).drop_last() =~= steps + rest);
        assert(sender_calls(steps + more) =~= sender_calls(steps) + sender_calls(more));
        assert(receiver_calls(steps + more) =~= receiver_calls(steps) + receiver_calls(more));
    }
}

/// If the ends make further calls in a run, what those calls lead to is what the run goes on to.
proof fn lemma_runs_on<R>(
    channel: Arc<Parts<Slot<R>>>,
    data: R,
    sender: Seq<Call<Slot<R>>>,
    before: Seq<Call<Slot<R>>>,
    made: Seq<Call<Slot<R>>>,
    steps: Seq<Step<R>>,
    more: Seq<Step<R>>,
)
    requires
        sender_after(channel, data, sender) is Some,
        receiver_after(channel, before) is Some,
        receiver_after(channel, before + made) is Some,
        interleaves(channel, steps, sender, before),
        interleaves(channel, steps + more, sender, before + made),
    ensures
        World::initial(channel, data).after(steps) matches Some(world) && {
            &&& World::initial(channel, data).after(steps + more) is Some
            &&& World::initial(channel, data).after(steps + more) == world.after(more)
        },
        receiver_calls(more) == made,
        sender_calls(more).len() == 0,
{
    law_runs_are_interleavings(channel, data, steps);
    law_runs_are_interleavings(channel, data, steps + more);
    lemma_after_concat(World::initial(channel, data), steps, more);
    lemma_calls_concat(steps, more);
    let start = before.len() as int;
    assert(receiver_calls(more) =~= (before + receiver_calls(more)).skip(start));
    assert(made =~= (before + made).skip(start));
}

/// A poll that follows a send returns the value that was sent. This holds of whatever future of the
/// channel may still be polled, whatever came before the poll.
pub proof fn law_a_poll_that_follows_a_send_is_ready<R>(
    sender: Sender<R>,
    data: R,
    before: Future<R>,
    after: Future<R>,
    waker: Waker,
    result: Poll<R>,
    steps: Seq<Step<R>>,
    more: Seq<Step<R>>,
)
    requires
        sends(sender.channel(), Seq::empty(), sender.calls(), data),
        before.wf(),
        before.stage() == Stage::Open,
        before.channel() == sender.channel(),
        polls(before.channel(), before.calls(), after.calls(), waker, result),
        interleaves(sender.channel(), steps, sender.calls(), before.calls()),
        interleaves(sender.channel(), steps + more, sender.calls(), after.calls()),
    ensures
        result == Poll::Ready(data),
{
    let channel = sender.channel();
    let found = choose|found: Slot<R>|
        sender.calls() == Seq::empty() + #[trigger] send_calls(channel, data, found);
    assert(sender.calls() =~= send_calls(channel, data, found));
    law_a_send_is_in_order(channel, data, found);
    let (first, second) = choose|first: Slot<R>, second: Slot<R>|
        {
            &&& after.calls() == before.calls() + #[trigger] poll_calls(
                channel,
                waker,
                first,
                second,
            )
            &&& result == poll_result(first, second)
        };
    let made = poll_calls(channel, waker, first, second);
    let stage = receiver_after(channel, before.calls())->Some_0;
    lemma_receiver_concat(channel, ReceiverStage::Idle, before.calls(), made);
    law_a_poll_is_in_order(channel, stage, waker, first, second);
    lemma_runs_on(channel, data, sender.calls(), before.calls(), made, steps, more);
    law_runs_are_interleavings(channel, data, steps);
    let world = World::initial(channel, data).after(steps)->Some_0;
    let later = world.after(more)->Some_0;
    lemma_inv(channel, data, steps, world);
    lemma_refused(channel, data, steps, world);
    law_a_poll_after_a_send_returns_the_value(
        channel,
        data,
        steps,
        world,
        more,
        later,
        waker,
        first,
        second,
    );
}

/// A poll that ends while nothing has been sent is pending.
pub proof fn law_a_poll_while_nothing_is_sent_is_pending<R>(
    sender: Sender<R>,
    before: Future<R>,
    after: Future<R>,
    waker: Waker,
    result: Poll<R>,
    steps: Seq<Step<R>>,
    more: Seq<Step<R>>,
)
    requires
        sender.wf(),
        !sender.sent(),
        before.wf(),
        before.stage() == Stage::Open,
        before.channel() == sender.channel(),
        polls(before.channel(), before.calls(), after.calls(), waker, result),
        interleaves(sender.channel(), steps, sender.calls(), before.calls()),
        interleaves(sender.channel(), steps + more, sender.calls(), after.calls()),
    ensures
        result == Poll::<R>::Pending,
{
    let channel = sender.channel();
    let data: R = arbitrary();
    let (first, second) = choose|first: Slot<R>, second: Slot<R>|
        {
            &&& after.calls() == before.calls() + #[trigger] poll_calls(
                channel,
                waker,
                first,
                second,
            )
            &&& result == poll_result(first, second)
        };
    let made = poll_calls(channel, waker, first, second);
    let stage = receiver_after(channel, before.calls())->Some_0;
    lemma_receiver_concat(channel, ReceiverStage::Idle, before.calls(), made);
    law_a_poll_is_in_order(channel, stage, waker, first, second);
    lemma_runs_on(channel, data, sender.calls(), before.calls(), made, steps, more);
    law_runs_are_interleavings(channel, data, steps);
    law_runs_are_interleavings(channel, data, steps + more);
    law_a_poll_before_a_send_is_pending(
        channel,
        data,
        steps,
        World::initial(channel, data).after(steps)->Some_0,
        more,
        World::initial(channel, data).after(steps + more)->Some_0,
        waker,
        first,
        second,
    );
}

/// A future that hangs up is told of a cancellation exactly if nothing had been sent before. In
/// particular, one that has received its value is not.
pub proof fn law_a_close_is_a_cancellation_exactly_if_nothing_was_sent<R>(
    sender: Sender<R>,
    before: Future<R>,
    after: Future<R>,
    state: DropState,
    steps: Seq<Step<R>>,
    more: Seq<Step<R>>,
)
    requires
        sender.wf(),
        before.wf(),
        before.stage() != Stage::Closed,
        before.channel() == sender.channel(),
        hangs_up(before.channel(), before.calls(), after.calls(), state),
        interleaves(sender.channel(), steps, sender.calls(), before.calls()),
        interleaves(sender.channel(), steps + more, sender.calls(), after.calls()),
    ensures
        state == DropState::Cancelled <==> !sender.sent(),
        before.stage() == Stage::Received ==> state == DropState::NotCancelled,
{
    let channel = sender.channel();
    law_the_ends_make_a_run(sender, before, steps);
    let data = choose|data: R|
        {
            &&& #[trigger] World::initial(channel, data).after(steps) matches Some(world)
            &&& sender.sent() ==> sends(channel, Seq::empty(), sender.calls(), data)
            &&& sender.sent() <==> world.sent() is Some
            &&& before.stage() == Stage::Received ==> world.received == seq![data]
        };
    let found = choose|found: Slot<R>|
        {
            &&& after.calls() == before.calls() + #[trigger] hang_up_calls(channel, found)
            &&& state == found.drop_state()
        };
    let made = hang_up_calls(channel, found);
    let stage = receiver_after(channel, before.calls())->Some_0;
    lemma_receiver_concat(channel, ReceiverStage::Idle, before.calls(), made);
    law_a_hangup_is_in_order(channel, stage, found);
    law_runs_are_interleavings(channel, data, steps);
    lemma_runs_on(channel, data, sender.calls(), before.calls(), made, steps, more);
    let world = World::initial(channel, data).after(steps)->Some_0;
    lemma_inv(channel, data, steps, world);
    law_the_sent_value_is_received(channel, data, steps, world);
    lemma_first_find(world, more, world.after(more)->Some_0);
    assert(receiver_calls(more)[0] == hang_up_call(channel, found));
}

/// The first thing that an end finds in the slot is what is there, if the other end does nothing.
proof fn lemma_first_find<R>(world: World<R>, more: Seq<Step<R>>, later: World<R>)
    requires
        world.after(more) == Some(later),
        sender_calls(more).len() == 0,
    ensures
        receiver_calls(more).len() == 0 ==> later == world,
        receiver_calls(more).len() > 0 && receiver_calls(more)[0] is Lend ==> receiver_calls(
            more,
        )[0]->found == world.memory.slot,
    decreases more.len(),
{
    if more.len() > 0 {
        let rest = more.drop_last();
        lemma_first_find(world, rest, world.after(rest)->Some_0);
    }
}

/// A sender that asks whether its future is gone is told so exactly if the future has hung up: what
/// it is told comes from a read of the flag of the channel, and a read that is made now tells what
/// is there.
pub proof fn law_is_cancelled_tells_whether_the_future_has_hung_up<R>(
    sender: Sender<R>,
    future: Future<R>,
    steps: Seq<Step<R>>,
    cancelled: bool,
)
    requires
        sender.wf(),
        future.wf(),
        sender.channel() == future.channel(),
        interleaves(sender.channel(), steps, sender.calls(), future.calls()),
        sender.shows(cancelled),
        reads_now(sender.channel(), steps, cancelled),
    ensures
        cancelled <==> future.stage() == Stage::Closed,
        cancelled <==> exists|i: int|
            0 <= i < future.calls().len() && #[trigger] future.calls()[i] == (Call::<
                Slot<R>,
            >::Raise { flag: sender.channel().flag() }),
{
    let channel = sender.channel();
    law_the_ends_make_a_run(sender, future, steps);
    let data = choose|data: R|
        {
            &&& #[trigger] World::initial(channel, data).after(steps) matches Some(world)
            &&& future.stage() == Stage::Closed <==> world.memory.slot is FutureHangup
        };
    let world = World::initial(channel, data).after(steps)->Some_0;
    law_runs_are_interleavings(channel, data, steps);
    lemma_inv(channel, data, steps, world);
    let look = Step::<R>::Look { flag: channel.flag(), told: cancelled };
    assert(steps.push(look).drop_last() =~= steps);
    lemma_raised(channel, future.calls());
}

/// If `told` came from a read of the flag of `channel`, then the read was made after `steps`.
pub open spec fn reads_now<R>(
    channel: Arc<Parts<Slot<R>>>,
    steps: Seq<Step<R>>,
    told: bool,
) -> bool {
    call_ensures(AtomicBool::load, (&channel.flag(), Ordering::Acquire), told) ==> memory_after(
        channel,
        steps.push(Step::Look { flag: channel.flag(), told }),
    ) is Some
}

/// A future has raised the flag exactly if it has been dropped.
proof fn lemma_raised<R>(channel: Arc<Parts<Slot<R>>>, calls: Seq<Call<Slot<R>>>)
    requires
        receiver_after(channel, calls) is Some,
    ensures
        receiver_after(channel, calls) == Some(ReceiverStage::Closed) <==> exists|i: int|
            0 <= i < calls.len() && #[trigger] calls[i] == (Call::<Slot<R>>::Raise {
                flag: channel.flag(),
            }),
    decreases calls.len(),
{
    if calls.len() > 0 {
        let rest = calls.drop_last();
        let raise = Call::<Slot<R>>::Raise { flag: channel.flag() };
        lemma_raised(channel, rest);
        if calls.last() == raise {
            assert(calls[calls.len() - 1] == raise);
        }
        if exists|i: int| 0 <= i < calls.len() && #[trigger] calls[i] == raise {
            let i = choose|i: int| 0 <= i < calls.len() && #[trigger] calls[i] == raise;
            if i < rest.len() {
                assert(rest[i] == raise);
            }
        }
    }
}

/// When a send has come to its end, and the last poll was pending, then the waker of that poll, and
/// no other, has been woken, and the value is there for the next poll.
pub proof fn law_the_last_pending_poll_is_woken<R>(
    sender: Sender<R>,
    data: R,
    before: Future<R>,
    after: Future<R>,
    waker: Waker,
    steps: Seq<Step<R>>,
)
    requires
        sends(sender.channel(), Seq::empty(), sender.calls(), data),
        before.wf(),
        before.stage() == Stage::Open,
        before.channel() == sender.channel(),
        polls(before.channel(), before.calls(), after.calls(), waker, Poll::Pending),
        interleaves(sender.channel(), steps, sender.calls(), after.calls()),
    ensures
        World::initial(sender.channel(), data).after(steps) matches Some(world) && world.woken
            == seq![waker] && world.memory.slot == Slot::Data(data),
        last_registered(sender.channel(), steps) == Some(waker),
{
    let channel = sender.channel();
    let found = choose|found: Slot<R>|
        sender.calls() == Seq::empty() + #[trigger] send_calls(channel, data, found);
    assert(sender.calls() =~= send_calls(channel, data, found));
    law_a_send_is_in_order(channel, data, found);
    let (first, second) = choose|first: Slot<R>, second: Slot<R>|
        {
            &&& after.calls() == before.calls() + #[trigger] poll_calls(
                channel,
                waker,
                first,
                second,
            )
            &&& Poll::<R>::Pending == poll_result(first, second)
        };
    let stage = receiver_after(channel, before.calls())->Some_0;
    lemma_receiver_concat(
        channel,
        ReceiverStage::Idle,
        before.calls(),
        poll_calls(channel, waker, first, second),
    );
    law_a_poll_is_in_order(channel, stage, waker, first, second);
    law_runs_are_interleavings(channel, data, steps);
    let world = World::initial(channel, data).after(steps)->Some_0;
    lemma_inv(channel, data, steps, world);
    lemma_refused(channel, data, steps, world);
    lemma_last_registered(channel, data, steps, world);
}

/// A future that waits has registered its waker last.
proof fn lemma_last_registered<R>(
    channel: Arc<Parts<Slot<R>>>,
    data: R,
    steps: Seq<Step<R>>,
    world: World<R>,
)
    requires
        reaches(channel, data, steps, world),
    ensures
        world.receiver matches ReceiverStage::Registered(waker) ==> last_registered(channel, steps)
            == Some(waker),
        world.receiver matches ReceiverStage::Parked(waker) ==> last_registered(channel, steps)
            == Some(waker),
    decreases steps.len(),
{
    if steps.len() > 0 {
        let before = World::initial(channel, data).after(steps.drop_last())->Some_0;
        lemma_last_registered(channel, data, steps.drop_last(), before);
        lemma_inv(channel, data, steps.drop_last(), before);
    }
}

/// Memory starts as it was made: the slot and the flag of a new continuation hold what the lock and
/// the flag were made of, and this is an empty slot and a flag that is not raised, as every run
/// begins.
pub proof fn law_a_run_begins_with_a_new_continuation<R>(sender: Sender<R>, start: Memory<R>)
    requires
        sender.is_fresh(),
        forall|slot: Slot<R>| #[trigger]
            call_ensures(Mutex::<Slot<R>>::new, (slot,), sender.channel().lock()) ==> slot
                == start.slot,
        forall|raised: bool| #[trigger]
            call_ensures(AtomicBool::new, (raised,), sender.channel().flag()) ==> raised
                == start.raised,
    ensures
        memory_after(sender.channel(), Seq::empty()) == Some(start),
{
}

/// There are runs to speak of: a poll in vain, then a send, then a poll that returns the value, then
/// a hangup, each of which finds what the one before it left.
pub proof fn law_a_whole_life_is_a_run<R>(
    channel: Arc<Parts<Slot<R>>>,
    data: R,
    waker: Waker,
    other: Waker,
)
    ensures
        exists|steps: Seq<Step<R>>|
            {
                &&& #[trigger] World::initial(channel, data).after(steps) is Some
                &&& interleaves(
                    channel,
                    steps,
                    send_calls(channel, data, Slot::Empty),
                    poll_calls(channel, waker, Slot::Empty, Slot::Empty) + poll_calls(
                        channel,
                        other,
                        Slot::Data(data),
                        Slot::Gone,
                    ) + hang_up_calls(channel, Slot::Gone),
                )
            },
{
    let s0 = Seq::<Step<R>>::empty();
    let s1 = s0.push(Step::Receiver(receive_call(channel, Slot::Empty)));
    let s2 = s1.push(Step::Receiver(Call::Register { cell: channel.cell(), waker }));
    let s3 = s2.push(Step::Receiver(receive_call(channel, Slot::Empty)));
    let s4 = s3.push(Step::Sender(offer_call(channel, data, Slot::Empty)));
    let s5 = s4.push(Step::Sender(Call::Wake { cell: channel.cell() }));
    let s6 = s5.push(Step::Receiver(receive_call(channel, Slot::Data(data))));
    let s7 = s6.push(Step::Receiver(hang_up_call(channel, Slot::Gone)));
    let s8 = s7.push(Step::Receiver(Call::Raise { flag: channel.flag() }));
    let start = World::initial(channel, data);
    assert(start.after(s0) == Some(start));
    lemma_after_push(start, s0, s1.last());
    lemma_after_push(start, s1, s2.last());
    lemma_after_push(start, s2, s3.last());
    lemma_after_push(start, s3, s4.last());
    lemma_after_push(start, s4, s5.last());
    lemma_after_push(start, s5, s6.last());
    lemma_after_push(start, s6, s7.last());
    lemma_after_push(start, s7, s8.last());
    assert(start.after(s8) is Some);
    law_runs_are_interleavings(channel, data, s8);
    assert(s1.drop_last() =~= s0);
    assert(s2.drop_last() =~= s1);
    assert(s3.drop_last() =~= s2);
    assert(s4.drop_last() =~= s3);
    assert(s5.drop_last() =~= s4);
    assert(s6.drop_last() =~= s5);
    assert(s7.drop_last() =~= s6);
    assert(s8.drop_last() =~= s7);
    reveal_with_fuel(sender_calls, 9);
    reveal_with_fuel(receiver_calls, 9);
    assert(sender_calls(s8) =~= send_calls(channel, data, Slot::Empty));
    assert(receiver_calls(s8) =~= poll_calls(channel, waker, Slot::Empty, Slot::Empty)
        + poll_calls(channel, other, Slot::Data(data), Slot::Gone) + hang_up_calls(
        channel,
        Slot::Gone,
    ));
}

} // verus!
