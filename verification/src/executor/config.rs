use vstd::prelude::*;

verus! {

/// How an executor runs: its task kinds, its per-thread state and its errors.
pub trait Config {
    /// The number of task types.
    const NUM_TASK_TYPES: usize;

    /// `True` when tasks may spawn more tasks.
    type AllowTasksToSpawnMoreTasks;

    /// `Fifo` or `Lifo`.
    type DequeBias;

    /// What a task or a thread initializer fails with.
    type Error: Send + 'static;

    /// The state each worker thread keeps.
    type ThreadLocalState;

    /// Makes a worker thread's state.
    fn thread_initializer(self) -> Result<Self::ThreadLocalState, Self::Error>;
}

/// A type-level yes.
pub struct True;

/// A type-level no.
pub struct False;

/// Oldest tasks first.
pub struct Fifo;

/// Newest tasks first.
pub struct Lifo;

} // verus!
