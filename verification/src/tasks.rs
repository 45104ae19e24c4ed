use vstd::prelude::*;

pub mod block;

verus! {

/// A scheduled task.
pub type Task = Box<TaskInner>;

/// What a scheduled task carries.
pub struct TaskInner {}

} // verus!
