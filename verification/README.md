# Lockness, verified

Blocking message-passing primitives built on fixed-size bit vectors, and the
task containers of the Lockness executor, written in Verus.

Layout of `src/`:

- `bags/` — channels ("bags"). `mask` holds the slot arithmetic of the
  multi-producer multi-consumer bag (request masks, trimming, draining);
  `mpmc` the bag itself, the decision each step takes on the words it read,
  the words it writes (each tied to the step of the bag model it performs),
  and the laws that every step of that model keeps each slot held by one
  party; `slot` the
  one-value channel with the same kind of laws; `mpsc` the status-word view;
  `buffer` what a sender sends from; `error` the failures.
- `atomic_bag/` — the status-word view of the atomic bag, its sender, and
  its latest-value slot.
- `bag/`, `tasks/` — the per-thread task blocks and their status word.
- `closure_vec`, `freestanding_vec` — stacks of closures and of values with
  metadata.
- `executor`, `scheduler` — configuration and builders.
- `sync` — the calls into std and rustix that verified code relies on
  without proof (mutexes, futex wake and wait, clocks).
- `bits`, `status_word` — bit-level specifications shared by the above.

`app/` holds what waits without end, reads the environment or needs trait
objects: the blocking pop of `RawOneLatest` (a loop over `wait_pop`), the default thread count, panic payloads,
and conversions to the standard library's channel errors and to `ArrayVec`.
