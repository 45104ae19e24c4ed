use vstd::prelude::*;

use std::marker::PhantomData;
use std::sync::Arc;

pub mod runtime;

use crate::scheduler::runtime::RuntimeContext;

verus! {

/// Collects the parameters of a scheduler.
pub struct Builder {
    max_num_threads: u8,
}

impl Builder {
    #[verifier::type_invariant]
    spec fn positive(self) -> bool {
        self.max_num_threads >= 1
    }

    /// The maximum number of threads asked for.
    pub closed spec fn spec_max_num_threads(&self) -> u8 {
        self.max_num_threads
    }

    /// A builder asking for as many threads as the machine offers
    /// (`available_parallelism`, one when unknown), capped at 255.
    pub fn new(available_parallelism: Option<usize>) -> (r: Self)
        requires
            available_parallelism matches Some(n) ==> n >= 1,
        ensures
            r.spec_max_num_threads() == match available_parallelism {
                Some(n) => if n <= 255 {
                    n as u8
                } else {
                    255u8
                },
                None => 1u8,
            },
    {
        let n = match available_parallelism {
            Some(n) => n,
            None => 1,
        };
        let max_num_threads: u8 = if n <= 255 {
            n as u8
        } else {
            255
        };
        Builder { max_num_threads }
    }

    /// Asks for at most `max` threads.
    pub fn max_num_threads(&mut self, max: u8) -> (r: &mut Self)
        requires
            max >= 1,
        ensures
            (*r).spec_max_num_threads() == max,
            *final(self) == *final(r),
    {
        self.max_num_threads = max;
        self
    }
}

/// Runs tasks on a pool of threads; `E` is what detached tasks fail with.
pub struct Scheduler<E> {
    context: Arc<RuntimeContext>,
    _error_marker: PhantomData<E>,
}

/// The result of a spawned task, once it is done.
pub struct JoinHandle<T> {
    result: T,
}

} // verus!
