# continuation

A continuation is a single-use channel. The sending end sends one value; the receiving end is
polled for it and has its waker notified when the value comes. Either end may be dropped at any
time and on any thread.

- `src/` is the library, verified with Verus.
  - `slot.rs`: the slot that the two ends share, and each step on it.
  - `access.rs`: those steps under the lock, each with the calls that it makes on record.
  - `access/outside.rs`: what is taken from `std` and `atomic_waker` without proof.
  - `steps.rs`: the calls of a send, a poll and a hangup, and their order.
  - `protocol.rs`: both ends together in every interleaving, and the laws that hold.
  - `sender.rs`, `future.rs`, `cancel.rs`, `sync.rs`: the ends themselves.
- `app/` makes the receiving ends futures of the standard library, and adds the destructors that
  panic or call a handler.
- `tests/` runs the library.
