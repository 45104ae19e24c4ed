use vstd::prelude::*;

verus! {

/// A growable stack of values together with a piece of metadata.
pub struct FreestandingVec<M, T> {
    metadata: M,
    items: Vec<T>,
}

impl<M, T> FreestandingVec<M, T> {
    /// The metadata.
    pub closed spec fn spec_metadata(&self) -> M {
        self.metadata
    }

    /// The values, oldest first.
    pub closed spec fn spec_items(&self) -> Seq<T> {
        self.items@
    }

    /// An empty vector carrying `metadata`.
    pub fn new(metadata: M) -> (r: Self)
        ensures
            r.spec_metadata() == metadata,
            r.spec_items() == Seq::<T>::empty(),
    {
        FreestandingVec { metadata, items: Vec::new() }
    }

    /// The vector holds no value.
    pub fn is_empty(&self) -> (r: bool)
        ensures
            r == (self.spec_items().len() == 0),
    {
        self.items.len() == 0
    }

    /// Starts over: no value, and `metadata` as the metadata. The values that
    /// were held are dropped.
    pub fn init(&mut self, metadata: M)
        ensures
            final(self).spec_metadata() == metadata,
            final(self).spec_items() == Seq::<T>::empty(),
    {
        self.metadata = metadata;
        self.items = Vec::new();
    }

    /// Puts `value` on top.
    pub fn push(&mut self, value: T)
        ensures
            final(self).spec_metadata() == old(self).spec_metadata(),
            final(self).spec_items() == old(self).spec_items().push(value),
    {
        self.items.push(value);
    }

    /// Takes the top value and hands it, with the metadata, to `f`, whose
    /// result comes back; `None`, leaving the vector as it is, when it is
    /// empty.
    pub fn pop<O, F: FnOnce(&M, T) -> O>(&mut self, f: F) -> (r: Option<O>)
        requires
            old(self).spec_items().len() > 0 ==> f.requires(
                (&old(self).spec_metadata(), old(self).spec_items().last()),
            ),
        ensures
            final(self).spec_metadata() == old(self).spec_metadata(),
            old(self).spec_items().len() == 0 ==> r is None && final(self).spec_items()
                == old(self).spec_items(),
            old(self).spec_items().len() > 0 ==> final(self).spec_items() == old(
                self,
            ).spec_items().drop_last() && (r matches Some(o) && f.ensures(
                (&old(self).spec_metadata(), old(self).spec_items().last()),
                o,
            )),
    {
        match self.items.pop() {
            None => None,
            Some(value) => Some(f(&self.metadata, value)),
        }
    }
}

/// What is left of `items` after taking `n` values off the top, one at a
/// time.
pub open spec fn pop_n<T>(items: Seq<T>, n: nat) -> Seq<T>
    decreases n,
{
    if n == 0 {
        items
    } else {
        pop_n(items, (n - 1) as nat).drop_last()
    }
}

/// Taking `n` values off the top of `items`, one at a time, leaves its first
/// `len - n`.
pub proof fn lemma_pop_n<T>(items: Seq<T>, n: nat)
    requires
        n <= items.len(),
    ensures
        pop_n(items, n) == items.take(items.len() - n),
    decreases n,
{
    if n > 0 {
        lemma_pop_n(items, (n - 1) as nat);
        assert(items.take(items.len() - (n - 1)).drop_last() =~= items.take(items.len() - n));
    }
}

/// Pushing the values of `pushed` one after the other onto an empty vector
/// and then popping `pops` times leaves the first `pushed.len() - pops`
/// values; the vector is empty exactly when every pushed value was popped.
pub proof fn law_pops_undo_pushes<T>(pushed: Seq<T>, pops: nat)
    requires
        pops <= pushed.len(),
    ensures
        Seq::<T>::empty() + pushed == pushed,
        pop_n(pushed, pops) == pushed.take(pushed.len() - pops),
        (pop_n(pushed, pops).len() == 0) <==> pops == pushed.len(),
{
    assert(Seq::<T>::empty() + pushed =~= pushed);
    lemma_pop_n(pushed, pops);
}

} // verus!
