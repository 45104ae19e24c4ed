use vstd::prelude::*;

use crate::freestanding_vec::{lemma_pop_n, pop_n, FreestandingVec};

verus! {

/// What the stack of closures carries beside them.
struct Metadata;

/// A stack of closures that are run, or dropped, last in first out.
pub struct ClosureVec<F: FnOnce() + 'static> {
    data: FreestandingVec<Metadata, F>,
}

impl<F: FnOnce() + 'static> ClosureVec<F> {
    /// The closures, oldest first.
    pub closed spec fn spec_tasks(&self) -> Seq<F> {
        self.data.spec_items()
    }

    /// An empty stack.
    pub fn new() -> (r: Self)
        ensures
            r.spec_tasks() == Seq::<F>::empty(),
    {
        ClosureVec { data: FreestandingVec::new(Metadata) }
    }

    /// Drops every closure without running it.
    pub fn clear(&mut self)
        ensures
            final(self).spec_tasks() == Seq::<F>::empty(),
    {
        while !self._pop_and_run(true)
            decreases self.spec_tasks().len(),
        {
        }
    }

    /// Puts `value` on top.
    pub fn push(&mut self, value: F)
        ensures
            final(self).spec_tasks() == old(self).spec_tasks().push(value),
    {
        self.data.push(value);
    }

    /// Runs the top closure and takes it off. Returns true if the vec is
    /// empty, false otherwise.
    pub fn pop_and_run(&mut self) -> (r: bool)
        requires
            old(self).spec_tasks().len() > 0 ==> old(self).spec_tasks().last().requires(()),
        ensures
            r == (old(self).spec_tasks().len() == 0),
            final(self).spec_tasks() == if r {
                old(self).spec_tasks()
            } else {
                old(self).spec_tasks().drop_last()
            },
            !r ==> old(self).spec_tasks().last().ensures((), ()),
    {
        self._pop_and_run(false)
    }

    /// Takes the top closure off, running it unless `just_drop`; true when
    /// there was none.
    fn _pop_and_run(&mut self, just_drop: bool) -> (r: bool)
        requires
            !just_drop && old(self).spec_tasks().len() > 0 ==> old(self).spec_tasks().last().requires(()),
        ensures
            r == (old(self).spec_tasks().len() == 0),
            final(self).spec_tasks() == if r {
                old(self).spec_tasks()
            } else {
                old(self).spec_tasks().drop_last()
            },
            !r && !just_drop ==> old(self).spec_tasks().last().ensures((), ()),
    {
        let run = |_metadata: &Metadata, task: F| -> (r: ())
            requires
                just_drop || task.requires(()),
            ensures
                !just_drop ==> task.ensures((), r),
        {
            if !just_drop {
                task();
            }
        };
        let popped = self.data.pop(run);
        popped.is_none()
    }

    /// The stack holds no closure.
    pub fn is_empty(&self) -> (r: bool)
        ensures
            r == (self.spec_tasks().len() == 0),
    {
        self.data.is_empty()
    }
}

/// After the closures of `pushed` were pushed onto an empty stack and
/// `runs` of them were run, the stack holds the first `pushed.len() - runs`;
/// it is empty, and the next `pop_and_run` returns true, exactly when every
/// pushed closure has run.
pub proof fn law_empty_when_every_push_has_run<F>(pushed: Seq<F>, runs: nat)
    requires
        runs <= pushed.len(),
    ensures
        pop_n(pushed, runs) == pushed.take(pushed.len() - runs),
        (pop_n(pushed, runs).len() == 0) <==> runs == pushed.len(),
{
    lemma_pop_n(pushed, runs);
}

} // verus!
