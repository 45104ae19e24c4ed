use vstd::prelude::*;

pub mod bag;
pub mod bags;
pub mod atomic_bag;
pub mod bits;
pub mod closure_vec;
pub mod executor;
pub mod freestanding_vec;
pub mod scheduler;
pub mod status_word;
pub mod sync;
pub mod tasks;

pub use closure_vec::ClosureVec;
pub use freestanding_vec::FreestandingVec;

use std::sync::atomic::{AtomicU32, Ordering};
use std::sync::Mutex;

use crate::sync::{atomic_sleep, atomic_wake, mutex_new, mutex_replace};

verus! {

/// A slot that keeps only the latest value pushed, for one consumer to pop.
#[verifier::reject_recursive_types(T)]
pub struct RawOneLatest<T> {
    data: Mutex<Option<T>>,
    /// Bumped on every push, for a waiting consumer to sleep on.
    pushes: AtomicU32,
}

impl<T> Default for RawOneLatest<T> {
    /// An empty slot.
    fn default() -> (r: Self) {
        RawOneLatest { data: mutex_new(None), pushes: AtomicU32::new(0) }
    }
}

impl<T> RawOneLatest<T> {
    /// Stores `t`, handing back the value it replaces, if one was waiting,
    /// and wakes a consumer waiting in `wait_pop`.
    pub fn push(&self, t: T) -> (r: Option<T>) {
        let old = mutex_replace(&self.data, Some(t));
        self.pushes.fetch_add(1, Ordering::Release);
        atomic_wake(&self.pushes, 1);
        old
    }

    /// Takes the waiting value, if any, leaving the slot empty.
    pub fn try_pop(&self) -> (r: Option<T>) {
        mutex_replace(&self.data, None)
    }

    /// Takes the waiting value; when there is none, sleeps until a push
    /// comes (or the sleep ends for another reason) and returns `None`, for
    /// the caller to look again.
    pub fn wait_pop(&self) -> (r: Option<T>) {
        let seen = self.pushes.load(Ordering::Acquire);
        match mutex_replace(&self.data, None) {
            Some(t) => Some(t),
            None => {
                atomic_sleep(&self.pushes, seen);
                None
            },
        }
    }
}

} // verus!
