use vstd::prelude::*;

use std::sync::atomic::AtomicBool;

verus! {

/// What the threads of a scheduler share.
pub struct RuntimeContext {
    max_num_threads: u8,
    abort: AtomicBool,
}

} // verus!
