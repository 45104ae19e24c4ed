use vstd::prelude::*;

use std::sync::atomic::AtomicU32;
use std::sync::{Arc, Mutex};

pub mod block;
pub mod status;

use crate::bag::block::TaskBlock;
use crate::bag::status::{StatusView, NUM_BLOCKS};
use crate::sync::mutex_new;

verus! {

/// The task blocks of one worker thread, with their status word.
#[verifier::reject_recursive_types(T)]
pub struct ThreadTaskRoot<T: Send> {
    task_blocks: Arc<Vec<Mutex<Option<Box<TaskBlock<T>>>>>>,
    status: Arc<AtomicU32>,
}

impl<T: Send> ThreadTaskRoot<T> {
    /// The number of task blocks.
    pub closed spec fn spec_num_blocks(&self) -> nat {
        self.task_blocks@.len()
    }

    /// A root with no task block yet, every block marked empty.
    pub fn new() -> (r: Self)
        ensures
            r.spec_num_blocks() == NUM_BLOCKS,
    {
        let mut task_blocks: Vec<Mutex<Option<Box<TaskBlock<T>>>>> = Vec::new();
        let mut i: u32 = 0;
        while i < NUM_BLOCKS
            invariant
                i <= NUM_BLOCKS,
                task_blocks@.len() == i,
            decreases NUM_BLOCKS - i,
        {
            task_blocks.push(mutex_new(None));
            i = i + 1;
        }
        ThreadTaskRoot {
            task_blocks: Arc::new(task_blocks),
            status: Arc::new(AtomicU32::new(StatusView::init())),
        }
    }
}

} // verus!
