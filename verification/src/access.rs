//! The steps that an end of a continuation takes on the shared slot, each under the lock.

mod outside;

use crate::slot::{DropState, ReadStatus, Slot};
use vstd::prelude::*;

pub use self::outside::{Call, End, Parts};

verus! {

impl<R> End<Slot<R>> {
    /// Offers `data` to the slot, and returns it if it was not taken.
    pub(crate) fn offer(&mut self, data: R) -> (step: (Option<R>, Ghost<Slot<R>>))
        ensures
            final(self).parts() == old(self).parts(),
            final(self).calls() == old(self).calls().push(
                Call::Lend {
                    lock: old(self).parts().lock(),
                    found: step.1@,
                    left: step.1@.after_send(data),
                },
            ),
            step.0 == step.1@.refused(data),
    {
        let mut held = self.lock();
        let slot = held.lend();
        let ghost found = *slot;
        let refused = slot.send(data);
        assert(has_resolved(slot));
        proof {
            held.lemma_released();
        }
        (refused, Ghost(found))
    }

    /// Takes the value out of the slot, if one is waiting.
    pub(crate) fn receive(&mut self) -> (step: (ReadStatus<R>, Ghost<Slot<R>>))
        ensures
            final(self).parts() == old(self).parts(),
            final(self).calls() == old(self).calls().push(
                Call::Lend {
                    lock: old(self).parts().lock(),
                    found: step.1@,
                    left: step.1@.after_receive(),
                },
            ),
            step.0 == step.1@.read(),
    {
        let mut held = self.lock();
        let slot = held.lend();
        let ghost found = *slot;
        let status = slot.interpret_result();
        assert(has_resolved(slot));
        proof {
            held.lemma_released();
        }
        (status, Ghost(found))
    }

    /// Marks the future as dropped, and returns a value that was still waiting.
    pub(crate) fn hang_up(&mut self) -> (step: (DropState, Option<R>, Ghost<Slot<R>>))
        ensures
            final(self).parts() == old(self).parts(),
            final(self).calls() == old(self).calls().push(
                Call::Lend {
                    lock: old(self).parts().lock(),
                    found: step.2@,
                    left: Slot::FutureHangup,
                },
            ),
            step.0 == step.2@.drop_state(),
            step.1 == step.2@.payload(),
        opens_invariants none
        no_unwind
    {
        let mut held = self.lock();
        let slot = held.lend();
        let ghost found = *slot;
        let (state, data) = slot.hang_up();
        assert(has_resolved(slot));
        proof {
            held.lemma_released();
        }
        (state, data, Ghost(found))
    }
}

} // verus!
