//! The slot that a sender and a future share.

use vstd::prelude::*;

verus! {

/// Where a continuation stands, together with the value while one is waiting.
///
/// Holding the value inside the `Data` variant makes it impossible for the state to claim a value
/// that is not there, or for a value to be forgotten by a change of state.
#[derive(Debug)]
pub enum Slot<R> {
    /// Nothing has been sent yet.
    Empty,
    /// A value has been sent and is waiting to be received.
    Data(R),
    /// The value has been received by the future.
    Gone,
    /// The future has been dropped.
    FutureHangup,
}

/// What a future finds when it looks for its value.
#[derive(Debug)]
pub enum ReadStatus<R> {
    /// The value was there, and now belongs to the reader.
    Data(R),
    /// Nothing has been sent yet.
    Waiting,
    /// The value was received before, or the future has been dropped: nothing will come any more.
    Spent,
}

/// Whether a future was dropped before anything was sent to it.
#[derive(Clone, Copy, Debug, PartialEq, Eq, Structural)]
pub enum DropState {
    /// Nothing had been sent when the future was dropped.
    Cancelled,
    /// A value had been sent, whether or not it was received.
    NotCancelled,
}

impl<R> Slot<R> {
    /// The slot after `data` has been offered to it: only an empty slot takes a value.
    pub open spec fn after_send(self, data: R) -> Slot<R> {
        match self {
            Slot::Empty => Slot::Data(data),
            _ => self,
        }
    }

    /// What an offer of `data` hands back to the sender.
    pub open spec fn refused(self, data: R) -> Option<R> {
        match self {
            Slot::Empty => None,
            _ => Some(data),
        }
    }

    /// The slot after the future has looked for its value: a waiting value leaves it.
    pub open spec fn after_receive(self) -> Slot<R> {
        match self {
            Slot::Data(_) => Slot::Gone,
            _ => self,
        }
    }

    /// What the future sees when it looks for its value.
    pub open spec fn read(self) -> ReadStatus<R> {
        match self {
            Slot::Data(data) => ReadStatus::Data(data),
            Slot::Empty => ReadStatus::Waiting,
            Slot::Gone | Slot::FutureHangup => ReadStatus::Spent,
        }
    }

    /// The value that is waiting in the slot, if there is one.
    pub open spec fn payload(self) -> Option<R> {
        match self {
            Slot::Data(data) => Some(data),
            _ => None,
        }
    }

    /// Whether a future that is dropped now is dropped before anything was sent.
    pub open spec fn drop_state(self) -> DropState {
        match self {
            Slot::Empty => DropState::Cancelled,
            _ => DropState::NotCancelled,
        }
    }

    /// Offers `data` to the slot.
    ///
    /// An empty slot takes it. Any other slot stays as it is and the value comes back, to be
    /// dropped by the caller.
    pub fn send(&mut self, data: R) -> (refused: Option<R>)
        ensures
            *final(self) == old(self).after_send(data),
            refused == old(self).refused(data),
    {
        match self {
            Slot::Empty => {
                *self = Slot::Data(data);
                None
            },
            _ => Some(data),
        }
    }

    /// Takes the value out of the slot if one is waiting, and tells what was found.
    pub fn interpret_result(&mut self) -> (status: ReadStatus<R>)
        ensures
            *final(self) == old(self).after_receive(),
            status == old(self).read(),
    {
        let mut found: Slot<R> = Slot::Gone;
        std::mem::swap(self, &mut found);
        match found {
            Slot::Data(data) => ReadStatus::Data(data),
            Slot::Empty => {
                *self = Slot::Empty;
                ReadStatus::Waiting
            },
            Slot::Gone => ReadStatus::Spent,
            Slot::FutureHangup => {
                *self = Slot::FutureHangup;
                ReadStatus::Spent
            },
        }
    }

    /// Marks the future as dropped.
    ///
    /// Tells whether this came before anything was sent, and hands out the value that nobody will
    /// receive any more, to be dropped by the caller.
    pub fn hang_up(&mut self) -> (outcome: (DropState, Option<R>))
        ensures
            *final(self) == Slot::<R>::FutureHangup,
            outcome == (old(self).drop_state(), old(self).payload()),
        opens_invariants none
        no_unwind
    {
        let mut found: Slot<R> = Slot::FutureHangup;
        std::mem::swap(self, &mut found);
        match found {
            Slot::Empty => (DropState::Cancelled, None),
            Slot::Data(data) => (DropState::NotCancelled, Some(data)),
            Slot::Gone => (DropState::NotCancelled, None),
            Slot::FutureHangup => (DropState::NotCancelled, None),
        }
    }

    /// Whether the future has been dropped.
    pub fn is_hung_up(&self) -> (hung_up: bool)
        ensures
            hung_up == (*self is FutureHangup),
    {
        match self {
            Slot::FutureHangup => true,
            _ => false,
        }
    }
}

/// An offer is taken or handed back, never both and never neither: an empty slot then holds the
/// value, and any other slot is left as it was.
pub proof fn law_an_offer_is_taken_or_handed_back<R>(slot: Slot<R>, data: R)
    ensures
        slot is Empty ==> slot.after_send(data) == Slot::Data(data) && slot.refused(data) is None,
        !(slot is Empty) ==> slot.after_send(data) == slot && slot.refused(data) == Some(data),
{
}

/// A look hands out a waiting value and leaves the slot spent; any other look changes nothing. So
/// what was offered to an empty slot is what the next look reads, and the look after that finds
/// nothing to read any more.
pub proof fn law_a_look_takes_what_an_offer_left<R>(slot: Slot<R>, data: R)
    ensures
        slot is Empty ==> slot.after_send(data).read() == ReadStatus::Data(data),
        slot is Empty ==> slot.after_send(data).after_receive().read() is Spent,
        slot is Empty <==> slot.read() is Waiting,
        slot.read() is Data <==> slot.payload() is Some,
        slot.read() matches ReadStatus::Data(read) ==> slot == Slot::Data(read) && slot.payload()
            == Some(read) && slot.after_receive() is Gone,
        !(slot.read() is Data) ==> slot.after_receive() == slot,
{
}

/// Only a slot to which nothing was ever sent counts as cancelled: an offer that is taken, and a look
/// that takes the value, both put an end to that.
pub proof fn law_only_an_empty_slot_is_cancelled<R>(slot: Slot<R>, data: R)
    ensures
        slot.drop_state() == DropState::Cancelled <==> slot is Empty,
        slot.after_send(data).drop_state() == DropState::NotCancelled,
        slot.after_receive().drop_state() == slot.drop_state(),
{
}

} // verus!
