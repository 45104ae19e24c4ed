use vstd::prelude::*;

pub mod slot;

use std::sync::atomic::{AtomicUsize, Ordering};
use std::sync::{Arc, Mutex};

use crate::status_word::{
    occupied, top_bit_usize, word_first_available, word_first_set, word_is_empty,
    word_is_sleeping, visit_step, SLEEP_MASK,
};
use crate::sync::mutex_replace;

verus! {

/// A block of a status word: its index, counted from the most significant
/// bit, and its one-bit mask.
#[derive(Copy, Clone, PartialEq, Eq, Structural, Debug)]
pub struct Block {
    pub index: usize,
    pub mask: usize,
}

/// A status word.
///
/// \[ occupied ]\[ sleep ] \
/// --- 63 bits --- 1 bit
#[derive(Copy, Clone, PartialEq, Eq, Structural, Debug)]
pub struct StatusView(usize);

impl StatusView {
    /// The status word this view reads.
    pub closed spec fn word(self) -> usize {
        self.0
    }

    pub fn new(status: usize) -> (r: Self)
        ensures
            r.word() == status,
    {
        StatusView(status)
    }

    /// The sleep flag is set.
    pub fn is_sleeping(self) -> (r: bool)
        ensures
            r == (self.word() & 1usize == 1usize),
    {
        word_is_sleeping(self.0)
    }

    /// No block is occupied.
    pub fn is_empty(self) -> (r: bool)
        ensures
            r <==> forall|c: u32| !#[trigger] occupied(self.word(), c),
    {
        let r = word_is_empty(self.0);
        assert(self.word() == self.0);
        r
    }

    /// The first block that is not occupied, or `None` when every block is.
    pub fn first_available_block(self) -> (r: Option<Block>)
        ensures
            match r {
                Some(b) => b.index + 1 < usize::BITS && !occupied(self.word(), b.index as u32) && (
                forall|c: u32| c < b.index ==> #[trigger] occupied(self.word(), c)) && b.mask == 1usize
                    << ((usize::BITS - 1 - b.index) as usize),
                None => forall|c: u32| c + 1 < usize::BITS ==> #[trigger] occupied(self.word(), c),
            },
    {
        match word_first_available(self.0) {
            Some((index, mask)) => Some(Block { index, mask }),
            None => None,
        }
    }

    /// The occupied blocks, one after the other.
    pub fn into_iter(self) -> (r: BlockIter)
        ensures
            r.word() == self.word() & !1usize,
    {
        BlockIter(self.0 & !crate::status_word::SLEEP_MASK)
    }
}

/// The blocks of a word that remain to be visited.
pub struct BlockIter(usize);

impl BlockIter {
    /// The blocks that remain, one bit each.
    pub closed spec fn word(self) -> usize {
        self.0
    }

    /// Visits the first remaining block, from the most significant bit.
    pub fn next(&mut self) -> (r: Option<Block>)
        ensures
            match r {
                Some(b) => b.index < usize::BITS && top_bit_usize(old(self).word(), b.index as u32)
                    && (forall|c: u32| c < b.index ==> !#[trigger] top_bit_usize(old(self).word(), c))
                    && b.mask == 1usize << ((usize::BITS - 1 - b.index) as usize) && final(self).word()
                    == old(self).word() ^ b.mask && (forall|c: u32| #[trigger] top_bit_usize(
                    final(self).word(),
                    c,
                ) == (top_bit_usize(old(self).word(), c) && c != b.index)),
                None => old(self).word() == 0 && final(self).word() == 0,
            },
            r matches Some(b) ==> visit_step(old(self).word(), b.index as u32, final(self).word()),
    {
        match word_first_set(self.0) {
            Some((index, mask)) => {
                self.0 = self.0 ^ mask;
                Some(Block { index, mask })
            },
            None => None,
        }
    }
}

/// The one-bit mask of block `index`, counted from the most significant bit.
pub open spec fn block_mask(index: usize) -> usize {
    1usize << ((usize::BITS - 1 - index) as usize)
}

/// Block `index` is the first block of the status word `word` that is not
/// occupied.
pub open spec fn is_first_free(word: usize, index: usize) -> bool {
    &&& index + 1 < usize::BITS
    &&& !occupied(word, index as u32)
    &&& forall|c: u32| c < index ==> #[trigger] occupied(word, c)
}

/// Whether a sender that set the bit `mask` in the status word, which held
/// `prev` just before, won that block: it did unless the bit was already set.
pub fn won_block(prev: usize, mask: usize) -> (r: bool)
    ensures
        r == (prev & mask != mask),
{
    prev & mask != mask
}

/// The state shared by the senders and receivers of an atomic bag of `N`
/// blocks.
#[verifier::reject_recursive_types(T)]
struct Inner<T> {
    status: AtomicUsize,
    bag: Vec<Mutex<Option<T>>>,
}

/// The sending side of an atomic bag of `N` blocks.
#[verifier::reject_recursive_types(T)]
pub struct Sender<const N: usize, T, const IS_MULTIPLE_RECEIVER: bool> {
    inner: Arc<Inner<T>>,
}

impl<const N: usize, T, const IS_MULTIPLE_RECEIVER: bool> Sender<N, T, IS_MULTIPLE_RECEIVER> {
    #[verifier::type_invariant]
    spec fn well_formed(self) -> bool {
        self.inner.bag@.len() == N
    }

    /// Puts `value` in the first block the status word shows free, handing
    /// it back when no block is free, when that block lies past the bag's
    /// `N` blocks, or when another sender took the block first. A sleeping
    /// receiver has its flag cleared. The attempt, and which of these results
    /// each pair of status words it saw gives, is `add_`.
    pub fn add(&self, value: T) -> (r: Option<T>)
        ensures
            r matches Some(v) ==> v == value,
    {
        let (r, _, _) = self.add_(value);
        r
    }

    /// Puts `value` in the first free block of the status word `status` it
    /// read, handing back that word and, when it tried to win a block, the
    /// block and the word `prev` its claim met. The value stays out exactly
    /// when no block of the word below `N` is free, or when `prev` shows the
    /// block already taken.
    fn add_(&self, value: T) -> (r: (Option<T>, usize, Option<(usize, usize)>))
        ensures
            r.0 matches Some(v) ==> v == value,
            r.2 is None ==> r.0 is Some && ((forall|c: u32| c + 1 < usize::BITS ==> #[trigger] occupied(r.1, c))
                || exists|i: usize| #[trigger] is_first_free(r.1, i) && i >= N),
            r.2 matches Some((i, prev)) ==> is_first_free(r.1, i) && i < N && (r.0 is None
                <==> prev & block_mask(i) != block_mask(i)),
    {
        proof {
            use_type_invariant(self);
        }
        let status = self.inner.status.load(Ordering::Relaxed);
        let status_view = StatusView::new(status);
        let block = match status_view.first_available_block() {
            Some(b) => b,
            None => {
                return (Some(value), status, None);
            },
        };
        proof {
            assert(is_first_free(status, block.index));
        }
        if block.index >= self.inner.bag.len() {
            return (Some(value), status, None);
        }
        let prev = self.inner.status.fetch_or(block.mask, Ordering::Relaxed);
        if !won_block(prev, block.mask) {
            return (Some(value), status, Some((block.index, prev)));
        }
        let _ = mutex_replace(&self.inner.bag[block.index], Some(value));
        if status_view.is_sleeping() {
            self.inner.status.fetch_and(!SLEEP_MASK, Ordering::Relaxed);
        }
        (None, status, Some((block.index, prev)))
    }
}

} // verus!
