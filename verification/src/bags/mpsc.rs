use vstd::prelude::*;

use crate::status_word::{
    occupied, top_bit_usize, word_first_available, word_first_set, word_is_empty,
    word_is_sleeping, visit_step,
};

verus! {

/// A block of a status word: its index, counted from the most significant
/// bit, and its one-bit mask.
#[derive(Copy, Clone, PartialEq, Eq, Structural, Debug)]
pub struct Block {
    pub index: usize,
    pub mask: usize,
}

/// A status word.
///
/// \[ occupied ]\[ sleep ] \
/// --- 63 bits --- 1 bit
#[derive(Copy, Clone, PartialEq, Eq, Structural, Debug)]
pub struct View(usize);

impl View {
    /// The status word this view reads.
    pub closed spec fn word(self) -> usize {
        self.0
    }

    pub fn new(status: usize) -> (r: Self)
        ensures
            r.word() == status,
    {
        View(status)
    }

    /// The sleep flag is set.
    pub fn is_sleeping(self) -> (r: bool)
        ensures
            r == (self.word() & 1usize == 1usize),
    {
        word_is_sleeping(self.0)
    }

    /// No block is occupied.
    pub fn is_empty(self) -> (r: bool)
        ensures
            r <==> forall|c: u32| !#[trigger] occupied(self.word(), c),
    {
        let r = word_is_empty(self.0);
        assert(self.word() == self.0);
        r
    }

    /// The first block that is not occupied, or `None` when every block is.
    pub fn first_available_block(self) -> (r: Option<Block>)
        ensures
            match r {
                Some(b) => b.index + 1 < usize::BITS && !occupied(self.word(), b.index as u32) && (
                forall|c: u32| c < b.index ==> #[trigger] occupied(self.word(), c)) && b.mask == 1usize
                    << ((usize::BITS - 1 - b.index) as usize),
                None => forall|c: u32| c + 1 < usize::BITS ==> #[trigger] occupied(self.word(), c),
            },
    {
        match word_first_available(self.0) {
            Some((index, mask)) => Some(Block { index, mask }),
            None => None,
        }
    }

    /// The occupied blocks, one after the other.
    pub fn into_iter(self) -> (r: BlockIter)
        ensures
            r.word() == self.word() & !1usize,
    {
        BlockIter(self.0 & !crate::status_word::SLEEP_MASK)
    }
}

/// The blocks of a word that remain to be visited.
pub struct BlockIter(usize);

impl BlockIter {
    /// The blocks that remain, one bit each.
    pub closed spec fn word(self) -> usize {
        self.0
    }

    /// Visits the first remaining block, from the most significant bit.
    pub fn next(&mut self) -> (r: Option<Block>)
        ensures
            match r {
                Some(b) => b.index < usize::BITS && top_bit_usize(old(self).word(), b.index as u32)
                    && (forall|c: u32| c < b.index ==> !#[trigger] top_bit_usize(old(self).word(), c))
                    && b.mask == 1usize << ((usize::BITS - 1 - b.index) as usize) && final(self).word()
                    == old(self).word() ^ b.mask && (forall|c: u32| #[trigger] top_bit_usize(
                    final(self).word(),
                    c,
                ) == (top_bit_usize(old(self).word(), c) && c != b.index)),
                None => old(self).word() == 0 && final(self).word() == 0,
            },
            r matches Some(b) ==> visit_step(old(self).word(), b.index as u32, final(self).word()),
    {
        match word_first_set(self.0) {
            Some((index, mask)) => {
                self.0 = self.0 ^ mask;
                Some(Block { index, mask })
            },
            None => None,
        }
    }
}

} // verus!
