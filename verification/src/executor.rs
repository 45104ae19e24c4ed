use vstd::prelude::*;

use std::marker::PhantomData;

pub mod config;

use crate::executor::config::{Config, True};

verus! {

/// A value that may be moved across threads but never shared by reference.
pub struct SyncWrapper<T>(T);

impl<T> SyncWrapper<T> {
    /// The wrapped value.
    pub closed spec fn spec_inner(&self) -> T {
        self.0
    }

    /// Wraps `value`.
    pub fn new(value: T) -> (r: Self)
        ensures
            r.spec_inner() == value,
    {
        SyncWrapper(value)
    }

    /// Unwraps the value.
    pub fn into_inner(self) -> (r: T)
        ensures
            r == self.spec_inner(),
    {
        self.0
    }
}

/// The number of worker threads that a `MAX_LOCKNESS_THREADS` setting of
/// `num_threads` asks for; `None` when it asks for fewer than one. A
/// setting that does not parse counts as -1.
pub fn threads_from_setting(num_threads: isize) -> (r: Option<usize>)
    ensures
        num_threads < 1 ==> r is None,
        num_threads >= 1 ==> r == Some(num_threads as usize),
{
    if num_threads < 1 {
        None
    } else {
        Some(num_threads as usize)
    }
}

/// The default number of worker threads: the setting when there is one,
/// else the parallelism the machine offers, else one.
pub fn choose_max_threads(setting: Option<usize>, available_parallelism: Option<usize>) -> (r:
    usize)
    requires
        setting matches Some(n) ==> n >= 1,
        available_parallelism matches Some(n) ==> n >= 1,
    ensures
        r >= 1,
        r == match setting {
            Some(n) => n,
            None => match available_parallelism {
                Some(n) => n,
                None => 1,
            },
        },
{
    match setting {
        Some(n) => n,
        None => match available_parallelism {
            Some(n) => n,
            None => 1,
        },
    }
}

/// The parameters an executor is built with.
struct DynamicParams {
    max_threads: usize,
}

/// Collects the parameters of an executor.
pub struct LocknessExecutorBuilder {
    max_threads: Option<usize>,
}

impl LocknessExecutorBuilder {
    /// The maximum number of worker threads asked for, if any.
    pub closed spec fn spec_max_threads(&self) -> Option<usize> {
        self.max_threads
    }

    /// A builder with no parameter set.
    pub fn new() -> (r: Self)
        ensures
            r.spec_max_threads() is None,
    {
        LocknessExecutorBuilder { max_threads: None }
    }

    /// Asks for at most `max_threads` worker threads.
    pub fn max_threads(self, max_threads: usize) -> (r: Self)
        requires
            max_threads >= 1,
        ensures
            r.spec_max_threads() == Some(max_threads),
    {
        LocknessExecutorBuilder { max_threads: Some(max_threads) }
    }

    /// The executor for `config`, with the maximum number of worker threads
    /// asked for, or `default_max_threads` when none was.
    pub fn build<C>(self, config: C, default_max_threads: usize) -> (r: LocknessExecutor<C>)
        requires
            default_max_threads >= 1,
            self.spec_max_threads() matches Some(n) ==> n >= 1,
        ensures
            r.spec_max_threads() == match self.spec_max_threads() {
                Some(n) => n,
                None => default_max_threads,
            },
            r.spec_config() == config,
    {
        let max_threads = match self.max_threads {
            Some(n) => n,
            None => default_max_threads,
        };
        LocknessExecutor { inner: Inner { params: DynamicParams { max_threads }, config } }
    }
}

struct Inner<C> {
    params: DynamicParams,
    config: C,
}

/// A task executor.
pub struct LocknessExecutor<C> {
    inner: Inner<C>,
}

impl<C> LocknessExecutor<C> {
    /// The maximum number of worker threads.
    pub closed spec fn spec_max_threads(&self) -> usize {
        self.inner.params.max_threads
    }

    /// The configuration the executor runs with.
    pub closed spec fn spec_config(&self) -> C {
        self.inner.config
    }
}

/// Hands tasks to an executor.
pub struct Spawner<C> {
    inner: Inner<C>,
}

/// A task buffer of type `F`.
///
/// Note that tasks submitted via the buffer are NOT scheduled to run on other
/// threads until a call to `flush`. Additionally, unlike [Spawner], dropping
/// this type does not trigger a scheduling action to allow for batched
/// scheduling across task types.
pub struct SpawnBuffer<'spawner, C, F> {
    inner: Inner<C>,
    _task: PhantomData<F>,
    _tie: PhantomData<&'spawner ()>,
}

/// Gives back what the tasks of an executor failed with.
pub struct Finisher<E> {
    inner: Inner<E>,
}

impl<
    'a,
    C: Config + Clone + Send + 'static,
    F: FnOnce(&mut C::ThreadLocalState) -> Result<(), C::Error> + Send + 'static,
> SpawnBuffer<'a, C, F> {
    /// Submits `f`; for now the buffer drops it.
    pub fn spawn(&self, f: F) {
    }
}

impl<
    'a,
    C: Config<AllowTasksToSpawnMoreTasks = True> + Clone + Send + 'static,
    F: FnOnce(&Spawner<C>, &mut C::ThreadLocalState) -> Result<(), C::Error> + Send + 'static,
> SpawnBuffer<'a, C, F> {
    /// Submits `f`, which may spawn more tasks; for now the buffer drops it.
    pub fn spawn_recursive(&self, f: F) {
    }
}

} // verus!
