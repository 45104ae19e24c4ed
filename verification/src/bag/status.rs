use vstd::prelude::*;

use crate::bits::{bit_u32, top_bit_u32};

verus! {

/// Number of task blocks a thread's task root tracks.
pub const NUM_BLOCKS: u32 = 15;

/// The low `NUM_BLOCKS` bits set.
pub const BLOCKS_MASK: u32 = 0x7fff;

/// The empty-block bits, once shifted into place: the top 15 bits of the word.
pub const EMPTY_REGION: u32 = 0xfffe_0000;

/// The full-block bits, once shifted into place: bits 2 to 16 of the word.
pub const FULL_REGION: u32 = 0x0001_fffc;

/// The status word of a thread's task root.
///
/// \[  empty   ]\[   full  ]\[ sleep ]\[ unused ] \
/// --- 15 bits --- 15 bits --- 1 bit --- 1 bit
///
/// Block `b` (counted from 0) is empty when bit `31 - b` is set and full when
/// bit `16 - b` is set.
#[derive(Copy, Clone)]
pub struct StatusView(pub u32);

/// Block `b` is marked empty in the status word `x`.
pub open spec fn is_empty_block(x: u32, b: u32) -> bool {
    b < NUM_BLOCKS && bit_u32(x, (31 - b) as u32)
}

/// Block `b` is marked full in the status word `x`.
pub open spec fn is_full_block(x: u32, b: u32) -> bool {
    b < NUM_BLOCKS && bit_u32(x, (16 - b) as u32)
}

/// The lowest empty block at index `b` or above.
pub open spec fn first_empty_from(x: u32, b: u32) -> Option<u32>
    decreases NUM_BLOCKS - b,
{
    if b >= NUM_BLOCKS {
        None
    } else if is_empty_block(x, b) {
        Some(b)
    } else {
        first_empty_from(x, (b + 1) as u32)
    }
}

/// The lowest block at index `b` or above that is not full.
pub open spec fn first_non_full_from(x: u32, b: u32) -> Option<u32>
    decreases NUM_BLOCKS - b,
{
    if b >= NUM_BLOCKS {
        None
    } else if !is_full_block(x, b) {
        Some(b)
    } else {
        first_non_full_from(x, (b + 1) as u32)
    }
}

/// The lowest empty block of `x`.
pub open spec fn first_empty_block(x: u32) -> Option<u32> {
    first_empty_from(x, 0)
}

/// The lowest block of `x` that is not full.
pub open spec fn first_non_full_block(x: u32) -> Option<u32> {
    first_non_full_from(x, 0)
}

/// The lowest block of `x` that is full.
pub open spec fn first_full_from(x: u32, b: u32) -> Option<u32>
    decreases NUM_BLOCKS - b,
{
    if b >= NUM_BLOCKS {
        None
    } else if is_full_block(x, b) {
        Some(b)
    } else {
        first_full_from(x, (b + 1) as u32)
    }
}

/// The block a new task should go to: the lowest empty block, or failing
/// that the lowest block that is not full.
pub open spec fn best_block(x: u32) -> Option<u32> {
    match first_empty_block(x) {
        Some(b) => Some(b),
        None => first_non_full_block(x),
    }
}

/// `first_empty_from` is the least marked block at or above `b`.
proof fn lemma_first_empty_from(x: u32, b: u32, k: u32)
    requires
        b <= k <= NUM_BLOCKS,
        forall|c: u32| b <= c < k ==> !is_empty_block(x, c),
        k < NUM_BLOCKS ==> is_empty_block(x, k),
    ensures
        first_empty_from(x, b) == if k < NUM_BLOCKS {
            Some(k)
        } else {
            None::<u32>
        },
    decreases NUM_BLOCKS - b,
{
    if b < k {
        assert(!is_empty_block(x, b));
        lemma_first_empty_from(x, (b + 1) as u32, k);
    }
}

/// `first_non_full_from` is the least unmarked block at or above `b`.
proof fn lemma_first_non_full_from(x: u32, b: u32, k: u32)
    requires
        b <= k <= NUM_BLOCKS,
        forall|c: u32| b <= c < k ==> is_full_block(x, c),
        k < NUM_BLOCKS ==> !is_full_block(x, k),
    ensures
        first_non_full_from(x, b) == if k < NUM_BLOCKS {
            Some(k)
        } else {
            None::<u32>
        },
    decreases NUM_BLOCKS - b,
{
    if b < k {
        assert(is_full_block(x, b));
        lemma_first_non_full_from(x, (b + 1) as u32, k);
    }
}

/// `first_full_from` is the least full block at or above `b`.
proof fn lemma_first_full_from(x: u32, b: u32, k: u32)
    requires
        b <= k <= NUM_BLOCKS,
        forall|c: u32| b <= c < k ==> !is_full_block(x, c),
        k < NUM_BLOCKS ==> is_full_block(x, k),
    ensures
        first_full_from(x, b) == if k < NUM_BLOCKS {
            Some(k)
        } else {
            None::<u32>
        },
    decreases NUM_BLOCKS - b,
{
    if b < k {
        assert(!is_full_block(x, b));
        lemma_first_full_from(x, (b + 1) as u32, k);
    }
}

/// The bits of the block regions of a status word `x`: block `b`'s empty
/// and full bits, and any other position `j`.
proof fn lemma_status_regions(x: u32, b: u32, j: u32)
    by (bit_vector)
    ensures
        0x7fffu32 << (32u32 - 15u32) == 0xfffe_0000u32,
        0x7fffu32 << (32u32 - 2u32 * 15u32) == 0x0001_fffcu32,
        b < 15 ==> ((0xfffe_0000u32 >> (31 - b) as u32) & 1u32 == 1u32) && !((0xfffe_0000u32 >> (16 - b) as u32) & 1u32 == 1u32),
        b < 15 ==> ((((x & 0xfffe_0000u32) >> (31 - b) as u32) & 1u32 == 1u32) == ((x >> (31 - b) as u32)
            & 1u32 == 1u32)),
        b < 15 ==> (((((x & 0x0001_fffcu32) << 15u32) >> (31 - b) as u32) & 1u32 == 1u32) == ((x >> (16 - b) as u32) & 1u32 == 1u32)),
        j < 17 ==> !((((x & 0x0001_fffcu32) << 15u32) >> j) & 1u32 == 1u32),
        j < 32 && (j >= 17 || j < 2) ==> (((x ^ 0x0001_fffcu32) >> j) & 1u32 == 1u32) == ((x >> j)
            & 1u32 == 1u32),
        (2 <= j && j <= 16) ==> (((x ^ 0x0001_fffcu32) >> j) & 1u32 == 1u32) == !((x >> j) & 1u32
            == 1u32),
{
}

/// The position of the first set bit, counted from the most significant bit.
proof fn lemma_leading_zeros(y: u32)
    ensures
        vstd::std_specs::bits::u32_leading_zeros(y) <= 32,
        vstd::std_specs::bits::u32_leading_zeros(y) < 32 ==> bit_u32(
            y,
            (31 - vstd::std_specs::bits::u32_leading_zeros(y)) as u32,
        ),
        forall|j: u32|
            32 - vstd::std_specs::bits::u32_leading_zeros(y) <= j < 32 ==> !#[trigger] bit_u32(
                y,
                j,
            ),
{
    vstd::std_specs::bits::axiom_u32_leading_zeros(y);
    let z = vstd::std_specs::bits::u32_leading_zeros(y);
    if z < 32 {
        assert((y >> (31 - z) as u32) & 1u32 != 0u32);
        assert((y >> (31 - z) as u32) & 1u32 != 0u32 ==> (y >> (31 - z) as u32) & 1u32 == 1u32)
            by (bit_vector);
    }
    assert forall|j: u32| 32 - z <= j < 32 implies !#[trigger] bit_u32(y, j) by {
        assert((y >> j) & 1u32 == 0u32);
    }
}

impl StatusView {
    /// The status word of a fresh task root: every block empty.
    pub fn init() -> (r: u32)
        ensures
            forall|b: u32| b < NUM_BLOCKS ==> is_empty_block(r, b) && !is_full_block(r, b),
            r == EMPTY_REGION,
    {
        let r = BLOCKS_MASK << (u32::BITS - NUM_BLOCKS);
        proof {
            lemma_status_regions(0, 0, 0);
        }
        assert forall|b: u32| b < NUM_BLOCKS implies is_empty_block(r, b) && !is_full_block(
            r,
            b,
        ) by {
            lemma_status_regions(0, b, 0);
        }
        r
    }

    /// The empty-block bits of the status word, left in place.
    pub fn empty_blocks(self) -> (r: u32)
        ensures
            r == self.0 & EMPTY_REGION,
    {
        let r = self.0 & (BLOCKS_MASK << (u32::BITS - NUM_BLOCKS));
        proof {
            lemma_status_regions(0, 0, 0);
        }
        r
    }

    /// The full-block bits of the status word, shifted into the position of
    /// the empty-block bits.
    pub fn full_blocks(self) -> (r: u32)
        ensures
            r == (self.0 & FULL_REGION) << 15u32,
            forall|b: u32| b < NUM_BLOCKS ==> (#[trigger] top_bit_u32(r, b) <==> is_full_block(self.0, b)),
            forall|j: u32| j < 17 ==> !#[trigger] bit_u32(r, j),
    {
        let r = (self.0 & (BLOCKS_MASK << (u32::BITS - 2 * NUM_BLOCKS))) << NUM_BLOCKS;
        let x = self.0;
        proof {
            lemma_status_regions(x, 0, 0);
        }
        assert forall|b: u32| b < NUM_BLOCKS implies (#[trigger] top_bit_u32(r, b)
            <==> is_full_block(x, b)) by {
            lemma_status_regions(x, b, 0);
        }
        assert forall|j: u32| j < 17 implies !#[trigger] bit_u32(r, j) by {
            lemma_status_regions(x, 0, j);
        }
        r
    }

    /// The index of the first block marked in `bits`, the block bits sitting
    /// in the top `NUM_BLOCKS` positions of the word.
    fn next_block(bits: u32) -> (r: Option<u32>)
        ensures
            match r {
                Some(b) => b < NUM_BLOCKS && top_bit_u32(bits, b) && forall|c: u32|
                    c < b ==> !#[trigger] top_bit_u32(bits, c),
                None => forall|c: u32| c < NUM_BLOCKS ==> !#[trigger] top_bit_u32(bits, c),
            },
    {
        let index = bits.leading_zeros();
        proof {
            lemma_leading_zeros(bits);
            assert forall|c: u32| c < index && c < 32 implies !#[trigger] top_bit_u32(bits, c) by {
                assert(32 - index <= (31 - c) as u32);
            }
        }
        if index < NUM_BLOCKS {
            Some(index)
        } else {
            None
        }
    }

    /// The lowest empty block.
    pub fn next_empty_block(self) -> (r: Option<u32>)
        ensures
            r == first_empty_block(self.0),
    {
        let e = self.empty_blocks();
        let r = Self::next_block(e);
        let x = self.0;
        proof {
            assert forall|c: u32| c < NUM_BLOCKS implies #[trigger] top_bit_u32(e, c)
                == is_empty_block(x, c) by {
                lemma_status_regions(x, c, 0);
            }
            let k = match r {
                Some(b) => b,
                None => NUM_BLOCKS,
            };
            assert forall|c: u32| 0 <= c < k implies !is_empty_block(x, c) by {
                assert(top_bit_u32(e, c) == is_empty_block(x, c));
            }
            if k < NUM_BLOCKS {
                assert(top_bit_u32(e, k) == is_empty_block(x, k));
            }
            lemma_first_empty_from(x, 0, k);
        }
        r
    }

    /// The lowest full block.
    pub fn next_full_block(self) -> (r: Option<u32>)
        ensures
            r == first_full_from(self.0, 0),
    {
        let f = self.full_blocks();
        let r = Self::next_block(f);
        proof {
            let k = match r {
                Some(b) => b,
                None => NUM_BLOCKS,
            };
            assert forall|c: u32| 0 <= c < k implies !is_full_block(self.0, c) by {
                assert(top_bit_u32(f, c) <==> is_full_block(self.0, c));
            }
            if k < NUM_BLOCKS {
                assert(top_bit_u32(f, k) <==> is_full_block(self.0, k));
            }
            lemma_first_full_from(self.0, 0, k);
        }
        r
    }

    /// The lowest block that is not full.
    pub fn next_non_full_block(self) -> (r: Option<u32>)
        ensures
            r == first_non_full_block(self.0),
    {
        let f = self.full_blocks();
        let nf = !f;
        let r = Self::next_block(nf);
        proof {
            assert forall|c: u32| c < NUM_BLOCKS implies #[trigger] top_bit_u32(nf, c)
                == !is_full_block(self.0, c) by {
                assert(top_bit_u32(f, c) <==> is_full_block(self.0, c));
                let j = (31 - c) as u32;
                assert(j < 32 && nf == !f ==> ((((nf >> j) & 1u32) == 1u32) == !(((f >> j) & 1u32)
                    == 1u32))) by (bit_vector);
            }
            let k = match r {
                Some(b) => b,
                None => NUM_BLOCKS,
            };
            assert forall|c: u32| 0 <= c < k implies is_full_block(self.0, c) by {
                assert(top_bit_u32(nf, c) == !is_full_block(self.0, c));
            }
            if k < NUM_BLOCKS {
                assert(top_bit_u32(nf, k) == !is_full_block(self.0, k));
            }
            lemma_first_non_full_from(self.0, 0, k);
        }
        r
    }

    /// The block a new task should go to, computed block kind by block kind.
    pub fn best_available_block_for_testing(self) -> (r: Option<u32>)
        ensures
            r == best_block(self.0),
    {
        match self.next_empty_block() {
            Some(b) => Some(b),
            None => self.next_non_full_block(),
        }
    }

    /// The block a new task should go to: the lowest empty block, or failing
    /// that the lowest block that is not full, or `None` when every block is
    /// full and none is empty.
    pub fn best_available_block(self) -> (r: Option<u32>)
        ensures
            r == best_block(self.0),
    {
        let x = self.0;
        let y = x ^ (BLOCKS_MASK << (u32::BITS - 2 * NUM_BLOCKS));
        proof {
            lemma_status_regions(x, 0, 0);
        }
        let zeros = y.leading_zeros();
        proof {
            lemma_leading_zeros(y);
        }
        if zeros < NUM_BLOCKS {
            proof {
                lemma_status_regions(x, 0, (31 - zeros) as u32);
                assert forall|c: u32| 0 <= c < zeros implies !is_empty_block(x, c) by {
                    lemma_status_regions(x, 0, (31 - c) as u32);
                    assert(!bit_u32(y, (31 - c) as u32));
                }
                lemma_first_empty_from(x, 0, zeros);
            }
            Some(zeros)
        } else if zeros < 2 * NUM_BLOCKS {
            let b = zeros - NUM_BLOCKS;
            proof {
                assert forall|c: u32| 0 <= c < NUM_BLOCKS implies !is_empty_block(x, c) by {
                    lemma_status_regions(x, 0, (31 - c) as u32);
                    assert(!bit_u32(y, (31 - c) as u32));
                }
                lemma_first_empty_from(x, 0, NUM_BLOCKS);
                lemma_status_regions(x, 0, (31 - zeros) as u32);
                assert forall|c: u32| 0 <= c < b implies is_full_block(x, c) by {
                    lemma_status_regions(x, 0, (16 - c) as u32);
                    assert(!bit_u32(y, (16 - c) as u32));
                }
                lemma_first_non_full_from(x, 0, b);
            }
            Some(b)
        } else {
            proof {
                assert forall|c: u32| 0 <= c < NUM_BLOCKS implies !is_empty_block(x, c) by {
                    lemma_status_regions(x, 0, (31 - c) as u32);
                    assert(!bit_u32(y, (31 - c) as u32));
                }
                lemma_first_empty_from(x, 0, NUM_BLOCKS);
                assert forall|c: u32| 0 <= c < NUM_BLOCKS implies is_full_block(x, c) by {
                    lemma_status_regions(x, 0, (16 - c) as u32);
                    assert(!bit_u32(y, (16 - c) as u32));
                }
                lemma_first_non_full_from(x, 0, NUM_BLOCKS);
            }
            None
        }
    }
}

/// Choosing a block from the whole status word at once agrees, on every
/// status word, with looking for an empty block first and a block that is
/// not full second.
pub proof fn law_best_block_prefers_empty(x: u32)
    ensures
        best_block(x) == match first_empty_block(x) {
            Some(b) => Some(b),
            None => first_non_full_block(x),
        },
        first_empty_block(x) is Some ==> best_block(x) == first_empty_block(x),
        best_block(x) is None <==> (forall|b: u32|
            b < NUM_BLOCKS ==> !is_empty_block(x, b) && is_full_block(x, b)),
{
    match first_empty_block(x) {
        Some(k) => {
            lemma_first_empty_some(x, 0, k);
        },
        None => {
            // locate the witness of the characterisation
            if best_block(x) is None {
                assert forall|b: u32| b < NUM_BLOCKS implies !is_empty_block(x, b)
                    && is_full_block(x, b) by {
                    lemma_first_empty_none(x, 0, b);
                    lemma_first_non_full_none(x, 0, b);
                }
            } else {
                let k = best_block(x)->0;
                lemma_first_non_full_some(x, 0, k);
            }
        },
    }
}

proof fn lemma_first_empty_none(x: u32, b: u32, c: u32)
    requires
        first_empty_from(x, b) is None,
        b <= c < NUM_BLOCKS,
    ensures
        !is_empty_block(x, c),
    decreases NUM_BLOCKS - b,
{
    if b < c {
        lemma_first_empty_none(x, (b + 1) as u32, c);
    }
}

proof fn lemma_first_non_full_none(x: u32, b: u32, c: u32)
    requires
        first_non_full_from(x, b) is None,
        b <= c < NUM_BLOCKS,
    ensures
        is_full_block(x, c),
    decreases NUM_BLOCKS - b,
{
    if b < c {
        lemma_first_non_full_none(x, (b + 1) as u32, c);
    }
}

proof fn lemma_first_empty_some(x: u32, b: u32, k: u32)
    requires
        first_empty_from(x, b) == Some(k),
    ensures
        b <= k < NUM_BLOCKS,
        is_empty_block(x, k),
    decreases NUM_BLOCKS - b,
{
    if b < NUM_BLOCKS && !is_empty_block(x, b) {
        lemma_first_empty_some(x, (b + 1) as u32, k);
    }
}

proof fn lemma_first_non_full_some(x: u32, b: u32, k: u32)
    requires
        first_non_full_from(x, b) == Some(k),
    ensures
        b <= k < NUM_BLOCKS,
        !is_full_block(x, k),
    decreases NUM_BLOCKS - b,
{
    if b < NUM_BLOCKS && is_full_block(x, b) {
        lemma_first_non_full_some(x, (b + 1) as u32, k);
    }
}

} // verus!
