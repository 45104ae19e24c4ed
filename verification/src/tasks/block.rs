use vstd::prelude::*;

verus! {

/// A block of closures of one type, run last in first out.
pub struct TaskBlock<F: FnOnce()> {
    data: Vec<F>,
}

impl<F: FnOnce()> TaskBlock<F> {
    /// The closures, oldest first.
    pub closed spec fn spec_tasks(&self) -> Seq<F> {
        self.data@
    }

    /// An empty block.
    pub fn new() -> (r: Self)
        ensures
            r.spec_tasks() == Seq::<F>::empty(),
    {
        TaskBlock { data: Vec::new() }
    }

    /// Drops every closure without running it.
    pub fn reset(&mut self)
        ensures
            final(self).spec_tasks() == Seq::<F>::empty(),
    {
        while !self.rop(true)
            decreases self.spec_tasks().len(),
        {
        }
    }

    /// Puts `value` on top.
    pub fn push(&mut self, value: F)
        ensures
            final(self).spec_tasks() == old(self).spec_tasks().push(value),
    {
        self.data.push(value);
    }

    /// Runs the top closure and takes it off. Returns true if the task block
    /// is complete, false otherwise.
    pub fn pop_and_run(&mut self) -> (r: bool)
        requires
            old(self).spec_tasks().len() > 0 ==> old(self).spec_tasks().last().requires(()),
        ensures
            r == (old(self).spec_tasks().len() == 0),
            final(self).spec_tasks() == if r {
                old(self).spec_tasks()
            } else {
                old(self).spec_tasks().drop_last()
            },
            !r ==> old(self).spec_tasks().last().ensures((), ()),
    {
        self.rop(false)
    }

    /// Takes the top closure off, running it unless `just_drop`; true when
    /// there was none.
    fn rop(&mut self, just_drop: bool) -> (r: bool)
        requires
            !just_drop && old(self).spec_tasks().len() > 0 ==> old(self).spec_tasks().last().requires(()),
        ensures
            r == (old(self).spec_tasks().len() == 0),
            final(self).spec_tasks() == if r {
                old(self).spec_tasks()
            } else {
                old(self).spec_tasks().drop_last()
            },
            !r && !just_drop ==> old(self).spec_tasks().last().ensures((), ()),
    {
        match self.data.pop() {
            Some(task) => {
                if !just_drop {
                    task();
                }
                false
            },
            None => true,
        }
    }
}

} // verus!
