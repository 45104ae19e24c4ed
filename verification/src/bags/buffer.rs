use vstd::prelude::*;

verus! {

/// What a sender holds items in while it sends them.
pub trait SendBufferContainer<T>: Sized {
    /// What is handed back when nothing could be sent.
    type Remit;

    /// How many items are left to take.
    spec fn remaining(&self) -> nat;

    /// `r` is what `remit` hands back while no item has been taken.
    spec fn remits(&self, r: &Self::Remit) -> bool;

    /// Takes one item out.
    fn take(&mut self) -> (r: T)
        requires
            old(self).remaining() > 0,
        ensures
            final(self).remaining() == old(self).remaining() - 1,
    ;

    /// Hands the untouched items back.
    fn remit(self) -> (r: Self::Remit)
        requires
            self.remaining() > 0,
        ensures
            self.remits(&r),
    ;
}

/// Something a sender can send items from: one item, or a vector of them.
pub trait SendBuffer<T>: Sized {
    /// What the items are taken from while sending.
    type Container: SendBufferContainer<T, Remit = Self>;

    /// The number of items on offer.
    spec fn spec_len(&self) -> nat;

    /// `self` holds the same items as `other`.
    spec fn spec_same_as(&self, other: &Self) -> bool;

    /// Every buffer holds the same items as itself.
    proof fn lemma_same_as_reflexive(a: &Self)
        ensures
            a.spec_same_as(a),
    ;

    /// Holding the same items carries over from one buffer to the next.
    proof fn lemma_same_as_transitive(a: &Self, b: &Self, c: &Self)
        requires
            a.spec_same_as(b),
            b.spec_same_as(c),
        ensures
            a.spec_same_as(c),
    ;

    /// The number of items on offer, and where to take them from.
    fn available_items(self) -> (r: (usize, Self::Container))
        ensures
            r.0 == self.spec_len(),
            r.1.remaining() == r.0,
            forall|b: Self| #[trigger] r.1.remits(&b) ==> b.spec_same_as(&self),
    ;
}

/// A single item is sent on its own.
impl<T> SendBuffer<T> for T {
    type Container = Option<T>;

    open spec fn spec_len(&self) -> nat {
        1
    }

    open spec fn spec_same_as(&self, other: &Self) -> bool {
        *self == *other
    }

    proof fn lemma_same_as_reflexive(a: &Self) {
    }

    proof fn lemma_same_as_transitive(a: &Self, b: &Self, c: &Self) {
    }

    fn available_items(self) -> (r: (usize, Self::Container)) {
        (1, Some(self))
    }
}

impl<T> SendBufferContainer<T> for Option<T> {
    type Remit = T;

    open spec fn remaining(&self) -> nat {
        if self.is_some() {
            1
        } else {
            0
        }
    }

    open spec fn remits(&self, r: &T) -> bool {
        *self == Some(*r)
    }

    fn take(&mut self) -> (r: T) {
        let item = self.take();
        item.unwrap()
    }

    fn remit(self) -> (r: T) {
        self.unwrap()
    }
}

/// The items of a vector are sent from its end; those that were not sent stay
/// in it.
impl<'a, T> SendBuffer<T> for &'a mut Vec<T> {
    type Container = Self;

    open spec fn spec_len(&self) -> nat {
        (**self)@.len()
    }

    open spec fn spec_same_as(&self, other: &Self) -> bool {
        (**self)@ == (**other)@
    }

    proof fn lemma_same_as_reflexive(a: &Self) {
    }

    proof fn lemma_same_as_transitive(a: &Self, b: &Self, c: &Self) {
    }

    fn available_items(self) -> (r: (usize, Self::Container)) {
        (self.len(), self)
    }
}

impl<'a, T> SendBufferContainer<T> for &'a mut Vec<T> {
    type Remit = Self;

    open spec fn remaining(&self) -> nat {
        (**self)@.len()
    }

    open spec fn remits(&self, r: &Self) -> bool {
        (**r)@ == (**self)@
    }

    fn take(&mut self) -> (r: T)
        ensures
            (**final(self))@ == (**old(self))@.drop_last(),
            r == (**old(self))@.last(),
    {
        let item = (**self).pop();
        item.unwrap()
    }

    fn remit(self) -> (r: Self) {
        self
    }
}

} // verus!
