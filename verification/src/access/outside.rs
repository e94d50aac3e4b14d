//! What the two ends of a continuation share, and the calls into `std` and `atomic_waker` by which
//! they act on it.
//!
//! The shared memory is reached through an [`End`] and in no other way, and each call that changes
//! it is entered into the record of the end that makes it, by the very item that makes the call.
//! Each call on record names the lock, the waker cell or the flag that it acted on. So a contract
//! over [`End::calls`] says which calls were made, on what, in which order, and that no others were.
//!
//! What other threads do to the shared memory is left open: nothing here says that what is found
//! under the lock is what its last holder left, nor that a wake notifies the waker that was
//! registered last. The laws of [`crate::protocol`] are about memory of which both are true.
//!
//! Two things have no trace in a contract. `vstd` says nothing of `AtomicBool::store`, so that only
//! [`End::raise`] writes to the flag is to be seen in this file, outside of which the flag cannot be
//! reached. And proofs do not follow destructors, so nothing says when a guard is dropped, and the
//! lock with it released.

use atomic_waker::AtomicWaker;
use std::sync::atomic::{AtomicBool, Ordering};
use std::sync::{Arc, Mutex, MutexGuard};
use std::task::Waker;
use vstd::prelude::*;

verus! {

/// `atomic_waker::AtomicWaker`, opaque to proofs.
#[verifier::external_type_specification]
#[verifier::external_body]
pub struct ExAtomicWaker(AtomicWaker);

/// `std::task::Waker`, opaque to proofs.
#[verifier::external_type_specification]
#[verifier::external_body]
pub struct ExWaker(Waker);

/// `std::sync::Mutex`, opaque to proofs.
#[verifier::external_type_specification]
#[verifier::external_body]
#[verifier::reject_recursive_types(T)]
pub struct ExMutex<T: ?Sized>(Mutex<T>);

/// `std::sync::MutexGuard`, opaque to proofs.
#[verifier::external_type_specification]
#[verifier::external_body]
#[verifier::reject_recursive_types(T)]
pub struct ExMutexGuard<'a, T: ?Sized + 'a>(MutexGuard<'a, T>);

/// `AtomicWaker::new` makes a cell in which no waker is registered. The cell changes behind shared
/// references, so nothing is claimed of its contents.
pub assume_specification [ AtomicWaker::new ]() -> AtomicWaker;

/// `Mutex::new` makes an unlocked mutex that holds `t`. What a mutex holds changes behind shared
/// references, so nothing is claimed of it.
pub assume_specification<T> [ Mutex::<T>::new ](t: T) -> Mutex<T>;

/// A call by which an end acts on what it shares with the other end, with the place in memory that
/// it acts on.
#[verifier::reject_recursive_types(T)]
pub enum Call<T> {
    /// The value behind `lock` was lent: what was found there, and what was left.
    Lend { lock: Mutex<T>, found: T, left: T },
    /// The waker that was registered last in `cell` was notified.
    Wake { cell: AtomicWaker },
    /// A waker was registered in `cell`.
    Register { cell: AtomicWaker, waker: Waker },
    /// `flag` was raised.
    Raise { flag: AtomicBool },
}

/// What two ends share: a value behind a lock, the waker to notify, and a flag that can be read
/// without the lock.
#[verifier::reject_recursive_types(T)]
pub struct Parts<T> {
    value: Mutex<T>,
    waker: AtomicWaker,
    flag: AtomicBool,
}

impl<T> Parts<T> {
    /// The lock, with the value behind it.
    pub closed spec fn lock(&self) -> Mutex<T> {
        self.value
    }

    /// The cell that holds the waker to notify.
    pub closed spec fn cell(&self) -> AtomicWaker {
        self.waker
    }

    /// The flag.
    pub closed spec fn flag(&self) -> AtomicBool {
        self.flag
    }

    /// What is said of the parts is said of those that the calls act on.
    proof fn law_what_is_held(&self)
        ensures
            self.lock() == self.value,
            self.cell() == self.waker,
            self.flag() == self.flag,
    {
    }

    /// Whether this was made of `value`, of a waker cell with no waker in it, and of a flag that is
    /// not raised.
    pub open spec fn made_of(&self, value: T) -> bool {
        &&& call_ensures(Mutex::<T>::new, (value,), self.lock())
        &&& call_ensures(AtomicWaker::new, (), self.cell())
        &&& call_ensures(AtomicBool::new, (false,), self.flag())
    }

    /// Whether `raised` is what a read of the flag may give.
    pub open spec fn shows(&self, raised: bool) -> bool {
        call_ensures(AtomicBool::load, (&self.flag(), Ordering::Acquire), raised)
    }
}

/// The calls that an end has made. It holds nothing at run time.
#[verifier::reject_recursive_types(T)]
pub struct Record<T> {
    calls: Ghost<Seq<Call<T>>>,
}

impl<T> Record<T> {
    /// The calls, in the order in which they were made.
    pub closed spec fn calls(&self) -> Seq<Call<T>> {
        self.calls@
    }
}

/// One of two ends that share a value, with the record of its calls.
#[verifier::reject_recursive_types(T)]
pub struct End<T> {
    parts: Arc<Parts<T>>,
    record: Record<T>,
}

/// The lock, held by an end. The end stays borrowed until the lock is released, so that it cannot
/// be locked a second time by the thread that holds it.
///
/// The lock and the record of the end that holds it cannot be parted.
#[verifier::reject_recursive_types(T)]
pub struct Held<'a, T> {
    guard: MutexGuard<'a, T>,
    record: &'a mut Record<T>,
    lock: Ghost<Mutex<T>>,
}

impl<T> End<T> {
    /// What this end shares.
    pub closed spec fn parts(&self) -> Arc<Parts<T>> {
        self.parts
    }

    /// The calls that this end has made.
    pub closed spec fn calls(&self) -> Seq<Call<T>> {
        self.record.calls()
    }

    /// What is said of an end is said of the parts that it acts on and of the record that it keeps.
    proof fn law_what_is_held(&self)
        ensures
            self.parts() == self.parts,
            self.calls() == self.record.calls@,
    {
    }

    /// Whether what this end shares was made of `value`, of a waker cell with no waker in it, and of
    /// a flag that is not raised.
    pub open spec fn made_of(&self, value: T) -> bool {
        self.parts().made_of(value)
    }

    /// Whether `raised` is what a read of the flag may give.
    pub open spec fn shows(&self, raised: bool) -> bool {
        self.parts().shows(raised)
    }

    /// Two ends that share `value`.
    pub(crate) fn pair(value: T) -> (ends: (End<T>, End<T>))
        ensures
            ends.0.made_of(value),
            ends.0.parts() == ends.1.parts(),
            ends.0.calls() == Seq::<Call<T>>::empty(),
            ends.1.calls() == Seq::<Call<T>>::empty(),
    {
        let parts = Arc::new(
            Parts {
                value: Mutex::new(value),
                waker: AtomicWaker::new(),
                flag: AtomicBool::new(false),
            },
        );
        let first = End { parts: parts.clone(), record: Record { calls: Ghost(Seq::empty()) } };
        let second = End { parts, record: Record { calls: Ghost(Seq::empty()) } };
        (first, second)
    }

    /// Whether the flag has been raised.
    pub(crate) fn is_raised(&self) -> (raised: bool)
        ensures
            self.shows(raised),
    {
        self.parts.flag.load(Ordering::Acquire)
    }

    /// `AtomicBool::store` raises the flag of this end, and the call is recorded.
    #[verifier::external_body]
    pub(crate) fn raise(&mut self)
        ensures
            final(self).parts() == old(self).parts(),
            final(self).calls() == old(self).calls().push(
                Call::Raise { flag: old(self).parts().flag() },
            ),
        opens_invariants none
        no_unwind
    {
        self.parts.flag.store(true, Ordering::Release);
    }

    /// `AtomicWaker::register` puts `waker` in the place of any that was registered before, for the
    /// next wake to notify, and the call is recorded.
    #[verifier::external_body]
    pub(crate) fn register(&mut self, waker: &Waker)
        ensures
            final(self).parts() == old(self).parts(),
            final(self).calls() == old(self).calls().push(
                Call::Register { cell: old(self).parts().cell(), waker: *waker },
            ),
    {
        self.parts.waker.register(waker);
    }

    /// `AtomicWaker::wake` notifies the waker that was registered last and forgets it, or does
    /// nothing if there is none, and the call is recorded.
    #[verifier::external_body]
    pub(crate) fn wake(&mut self)
        ensures
            final(self).parts() == old(self).parts(),
            final(self).calls() == old(self).calls().push(
                Call::Wake { cell: old(self).parts().cell() },
            ),
    {
        self.parts.waker.wake();
    }

    /// `Mutex::lock` blocks until no other thread holds the lock, and takes it, poisoned or not. What
    /// is held is the lock of this end.
    ///
    /// `std` leaves open what happens to a thread that locks what it holds already. The lock that
    /// is returned keeps the end mutably borrowed until it is released, so an end cannot be locked
    /// while it is locked. Only the steps in [`crate::access`] can take the lock, and each of them
    /// has one end in its hands and runs no foreign code.
    #[verifier::external_body]
    pub(super) fn lock<'a>(&'a mut self) -> (held: Held<'a, T>)
        ensures
            held.lock() == old(self).parts().lock(),
            held.record().calls() == old(self).calls(),
            final(self).calls() == (*final(held.record())).calls(),
            final(self).parts() == old(self).parts(),
        opens_invariants none
        no_unwind
    {
        match self.parts.value.lock() {
            Ok(guard) => Held {
                guard,
                record: &mut self.record,
                lock: Ghost(self.parts.lock()),
            },
            Err(poisoned) => Held {
                guard: poisoned.into_inner(),
                record: &mut self.record,
                lock: Ghost(self.parts.lock()),
            },
        }
    }
}

impl<'a, T> Held<'a, T> {
    /// The lock that is held.
    pub(super) closed spec fn lock(self) -> Mutex<T> {
        self.lock@
    }

    /// The record of the end that holds the lock.
    pub(super) closed spec fn record(self) -> &'a mut Record<T> {
        self.record
    }

    /// Once the lock is released, the record of the end that held it stays as it is.
    pub(super) proof fn lemma_released(self)
        requires
            has_resolved(self),
        ensures
            *final(self.record()) == *self.record(),
    {
    }

    /// `MutexGuard::deref_mut` lends the value under the lock, and the call is recorded with what
    /// the value was and what is left of it in the end.
    #[verifier::external_body]
    pub(super) fn lend<'b>(&'b mut self) -> (value: &'b mut T)
        ensures
            final(self).lock() == old(self).lock(),
            final(self).record().calls() == old(self).record().calls().push(
                Call::Lend { lock: old(self).lock(), found: *value, left: *final(value) },
            ),
            (*final(final(self).record())).calls() == (*final(old(self).record())).calls(),
        opens_invariants none
        no_unwind
    {
        &mut *self.guard
    }
}

} // verus!
