use vstd::prelude::*;

verus! {

/// The size of a cache line, in bytes.
pub const CACHE_LINE_SIZE: usize = 128;

/// The size of a pointer, in bytes.
pub const POINTER_SIZE: usize = 8;

/// A block of tasks that fits a cache line: a bounded stack.
pub struct TaskBlock<T: Send> {
    tasks: Vec<T>,
}

impl<T: Send> TaskBlock<T> {
    /// The number of tasks a block holds at most.
    pub open spec fn spec_capacity() -> nat {
        ((CACHE_LINE_SIZE - 1) as int / POINTER_SIZE as int) as nat
    }

    /// The tasks, oldest first.
    pub closed spec fn spec_tasks(&self) -> Seq<T> {
        self.tasks@
    }

    /// An empty block.
    pub fn new() -> (r: Box<Self>)
        ensures
            r.spec_tasks() == Seq::<T>::empty(),
    {
        Box::new(TaskBlock { tasks: Vec::new() })
    }

    /// The number of tasks a block holds at most: what fits in a cache line
    /// beside one pointer-sized count.
    pub fn capacity() -> (r: usize)
        ensures
            r == Self::spec_capacity(),
            r == 15,
    {
        (CACHE_LINE_SIZE - 1) / POINTER_SIZE
    }

    /// Puts `value` on top, or hands it back when the block is full.
    pub fn push(&mut self, value: T) -> (r: Option<T>)
        ensures
            old(self).spec_tasks().len() >= Self::spec_capacity() ==> r == Some(value)
                && final(self).spec_tasks() == old(self).spec_tasks(),
            old(self).spec_tasks().len() < Self::spec_capacity() ==> r is None
                && final(self).spec_tasks() == old(self).spec_tasks().push(value),
    {
        if self.tasks.len() >= Self::capacity() {
            return Some(value);
        }
        self.tasks.push(value);
        None
    }

    /// Takes the top task, the one pushed last; `None` when the block is empty.
    pub fn pop(&mut self) -> (r: Option<T>)
        ensures
            old(self).spec_tasks().len() == 0 ==> r is None && final(self).spec_tasks() == old(
                self,
            ).spec_tasks(),
            old(self).spec_tasks().len() > 0 ==> r == Some(old(self).spec_tasks().last())
                && final(self).spec_tasks() == old(self).spec_tasks().drop_last(),
    {
        self.next()
    }

    /// Takes the top task: the block's iteration order, last pushed first.
    pub fn next(&mut self) -> (r: Option<T>)
        ensures
            old(self).spec_tasks().len() == 0 ==> r is None && final(self).spec_tasks() == old(
                self,
            ).spec_tasks(),
            old(self).spec_tasks().len() > 0 ==> r == Some(old(self).spec_tasks().last())
                && final(self).spec_tasks() == old(self).spec_tasks().drop_last(),
    {
        self.tasks.pop()
    }

    /// The block holds no task.
    pub fn is_empty(&self) -> (r: bool)
        ensures
            r == (self.spec_tasks().len() == 0),
    {
        self.tasks.len() == 0
    }
}

/// Pushing onto a block that has room and popping gives back what was
/// pushed and leaves the block as it was.
pub proof fn law_push_then_pop<T: Send>(before: Seq<T>, value: T)
    requires
        before.len() < TaskBlock::<T>::spec_capacity(),
    ensures
        before.push(value).last() == value,
        before.push(value).drop_last() == before,
{
    assert(before.push(value).drop_last() =~= before);
}

} // verus!
