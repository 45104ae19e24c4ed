use vstd::prelude::*;

verus! {

/// Bit `usize::BITS - 1 - c` of a word: position `c` counted from the most
/// significant bit.
pub open spec fn top_bit_usize(x: usize, c: u32) -> bool {
    c < usize::BITS && (x >> (usize::BITS - 1 - c) as usize) & 1usize == 1usize
}

/// `usize::leading_ones` counts the ones at the top of the word, before the
/// first zero (as std documents it: "the number of leading ones in the binary
/// representation of self").
pub assume_specification[ usize::leading_ones ](x: usize) -> (r: u32)
    ensures
        r <= usize::BITS,
        forall|c: u32| c < r ==> #[trigger] top_bit_usize(x, c),
        r < usize::BITS ==> !top_bit_usize(x, r),
;

/// `usize::leading_zeros` counts the zeros at the top of the word, before the
/// first one (as std documents it: "the number of leading zeros in the binary
/// representation of self").
pub assume_specification[ usize::leading_zeros ](x: usize) -> (r: u32)
    ensures
        r <= usize::BITS,
        forall|c: u32| c < r ==> !#[trigger] top_bit_usize(x, c),
        r < usize::BITS ==> top_bit_usize(x, r),
;

/// The sleep flag: the least significant bit of a status word.
pub const SLEEP_MASK: usize = 1;

/// The occupied flag of block `c` (counted from the most significant bit)
/// of a status word; the last position holds the sleep flag instead.
pub open spec fn occupied(x: usize, c: u32) -> bool {
    c + 1 < usize::BITS && top_bit_usize(x, c)
}

/// The sleep flag of a status word is set.
pub fn word_is_sleeping(x: usize) -> (r: bool)
    ensures
        r == (x & 1usize == 1usize),
        r == top_bit_usize(x, (usize::BITS - 1) as u32),
{
    assert((x >> 0usize) & 1usize == x & 1usize) by (bit_vector);
    (x & SLEEP_MASK) == SLEEP_MASK
}

/// No block of a status word is occupied.
pub fn word_is_empty(x: usize) -> (r: bool)
    ensures
        r == (x & !1usize == 0usize),
        r <==> forall|c: u32| !#[trigger] occupied(x, c),
{
    let occ = x & !SLEEP_MASK;
    let r = occ == 0;
    proof {
        assert forall|c: u32| r implies !#[trigger] occupied(x, c) by {
            if c + 1 < usize::BITS {
                let j = (usize::BITS - 1 - c) as usize;
                assert(occ == x & !1usize && occ == 0usize && j >= 1usize ==> (x >> j) & 1usize
                    != 1usize) by (bit_vector);
            }
        }
    }
    if !r {
        let lz = occ.leading_zeros();
        proof {
            let j = (usize::BITS - 1 - lz) as usize;
            if lz == usize::BITS {
                assert forall|c: u32| !#[trigger] top_bit_usize(occ, c) by {}
                lemma_no_top_bits_is_zero(occ);
            }
            assert(occ == x & !1usize && (occ >> j) & 1usize == 1usize ==> (x >> j) & 1usize
                == 1usize && j >= 1usize) by (bit_vector);
            assert(occupied(x, lz));
        }
    }
    r
}

/// The first block (from the most significant bit) of a status word that is
/// not occupied, with its one-bit mask; `None` when every block is occupied.
pub fn word_first_available(x: usize) -> (r: Option<(usize, usize)>)
    ensures
        match r {
            Some((i, m)) => i + 1 < usize::BITS && !occupied(x, i as u32) && (forall|c: u32|
                c < i ==> #[trigger] occupied(x, c)) && m == 1usize << ((usize::BITS - 1 - i) as usize),
            None => forall|c: u32| c + 1 < usize::BITS ==> #[trigger] occupied(x, c),
        },
{
    let y = x | SLEEP_MASK;
    let n = y.leading_ones();
    proof {
        assert forall|c: u32| c + 1 < usize::BITS implies #[trigger] top_bit_usize(y, c)
            == top_bit_usize(x, c) by {
            let j = (usize::BITS - 1 - c) as usize;
            assert(y == x | 1usize && j >= 1usize ==> ((y >> j) & 1usize == 1usize) == ((x >> j)
                & 1usize == 1usize)) by (bit_vector);
        }
        let last = (usize::BITS - 1) as u32;
        assert((y >> 0usize) & 1usize == 1usize) by (bit_vector)
            requires
                y == x | 1usize,
        ;
        assert(top_bit_usize(y, last));
    }
    if n == usize::BITS {
        proof {
            assert forall|c: u32| c + 1 < usize::BITS implies #[trigger] occupied(x, c) by {
                assert(top_bit_usize(y, c));
            }
        }
        None
    } else {
        let index = n as usize;
        let sh = (usize::BITS - 1 - n) as usize;
        proof {
            assert(!top_bit_usize(y, n));
            assert(n + 1 < usize::BITS);
            assert(!occupied(x, n));
            assert((index as u32) == n);
            assert forall|c: u32| c < index implies #[trigger] occupied(x, c) by {
                assert(top_bit_usize(y, c));
            }
        }
        Some((index, 1usize << sh))
    }
}

/// The first occupied block (from the most significant bit) of a word of
/// blocks, with its one-bit mask; `None` when the word is zero.
pub fn word_first_set(x: usize) -> (r: Option<(usize, usize)>)
    ensures
        match r {
            Some((i, m)) => i < usize::BITS && top_bit_usize(x, i as u32) && (forall|c: u32|
                c < i ==> !#[trigger] top_bit_usize(x, c)) && m == 1usize << (usize::BITS - 1
                - i) as usize && (forall|c: u32| #[trigger] top_bit_usize(x ^ m, c) == (top_bit_usize(x, c) && c != i)),
            None => x == 0 && forall|c: u32| !#[trigger] top_bit_usize(x, c),
        },
{
    let index = x.leading_zeros();
    if index == usize::BITS {
        proof {
            assert forall|c: u32| !#[trigger] top_bit_usize(x, c) by {}
            lemma_no_top_bits_is_zero(x);
        }
        None
    } else {
        let sh = usize::BITS - 1 - index;
        let mask = 1usize << sh;
        proof {
            assert forall|c: u32| #[trigger] top_bit_usize(x ^ mask, c) == (top_bit_usize(x, c) && c != index) by {
                if c < usize::BITS {
                    let j = (usize::BITS - 1 - c) as usize;
                    let shu = sh as usize;
                    assert(shu < usize::BITS && mask == 1usize << shu && (x >> shu) & 1usize == 1usize && j < usize::BITS ==> (((x ^ mask) >> j) & 1usize == 1usize) == ((x >> j) & 1usize == 1usize && j != shu)) by (bit_vector);
                }
            }
        }
        Some((index as usize, mask))
    }
}

/// A word with no set bit is zero.
proof fn lemma_no_top_bits_is_zero(x: usize)
    requires
        forall|c: u32| !#[trigger] top_bit_usize(x, c),
    ensures
        x == 0,
{
    if x != 0 {
        if usize::BITS == 64 {
            let y = x as u64;
            vstd::std_specs::bits::axiom_u64_trailing_zeros(y);
            let t = vstd::std_specs::bits::u64_trailing_zeros(y);
            assert(x != 0usize ==> y != 0u64) by (bit_vector)
                requires
                    y == x as u64,
            ;
            assert(t < 64);
            let c = (63 - t) as u32;
            assert(!top_bit_usize(x, c));
            let tu = t as usize;
            assert((y >> t as u64) & 1u64 == 1u64);
            assert(usize::BITS == 64 && y == x as u64 && tu == t as usize && t < 64u32 && (y >> t as u64) & 1u64 == 1u64 ==> (x >> tu) & 1usize == 1usize) by (bit_vector);
        } else {
            let y = x as u32;
            vstd::std_specs::bits::axiom_u32_trailing_zeros(y);
            let t = vstd::std_specs::bits::u32_trailing_zeros(y);
            assert(usize::BITS == 32 && x != 0usize ==> y != 0u32) by (bit_vector)
                requires
                    y == x as u32,
            ;
            assert(t < 32);
            let c = (31 - t) as u32;
            assert(!top_bit_usize(x, c));
            let tu = t as usize;
            assert((y >> t) & 1u32 == 1u32);
            assert(usize::BITS == 32 && y == x as u32 && tu == t as usize && t < 32u32 && (y >> t) & 1u32 == 1u32 ==> (x >> tu) & 1usize == 1usize) by (bit_vector);
        }
    }
}

/// The sleep flag never decides which blocks are occupied: flipping it
/// leaves every block's occupied flag, and so the first available block and
/// every block visited, as they were.
pub proof fn law_sleep_bit_never_matters(x: usize)
    ensures
        forall|c: u32| #[trigger] occupied(x ^ 1usize, c) == occupied(x, c),
{
    assert forall|c: u32| #[trigger] occupied(x ^ 1usize, c) == occupied(x, c) by {
        if c + 1 < usize::BITS {
            let j = (usize::BITS - 1 - c) as usize;
            assert(j >= 1usize ==> ((x ^ 1usize) >> j) & 1usize == (x >> j) & 1usize)
                by (bit_vector);
        }
    }
}

/// One visit of a block iterator: `index` is the first position set in
/// `before`, and `after` keeps every other position of `before`.
pub open spec fn visit_step(before: usize, index: u32, after: usize) -> bool {
    &&& index < usize::BITS
    &&& top_bit_usize(before, index)
    &&& forall|c: u32| c < index ==> !#[trigger] top_bit_usize(before, c)
    &&& forall|c: u32| #[trigger] top_bit_usize(after, c) == (top_bit_usize(before, c) && c != index)
}

/// A run of visits that starts at the word `words[0]` and ends on a word
/// with nothing left yields every position set in the first word exactly
/// once, by increasing index.
pub proof fn law_iteration_visits_each_block_once(words: Seq<usize>, blocks: Seq<u32>)
    requires
        words.len() == blocks.len() + 1,
        forall|i: int| 0 <= i < blocks.len() ==> visit_step(words[i], #[trigger] blocks[i], words[i + 1]),
        forall|c: u32| !#[trigger] top_bit_usize(words.last(), c),
    ensures
        forall|i: int, j: int| 0 <= i < j < blocks.len() ==> blocks[i] < blocks[j],
        forall|c: u32| #[trigger] top_bit_usize(words[0], c) <==> blocks.contains(c),
    decreases blocks.len(),
{
    if blocks.len() == 0 {
        assert(words[0] == words.last());
    } else {
        let ws = words.subrange(1, words.len() as int);
        let bs = blocks.subrange(1, blocks.len() as int);
        assert forall|i: int| 0 <= i < bs.len() implies visit_step(ws[i], #[trigger] bs[i], ws[i + 1]) by {
            assert(blocks[i + 1] == bs[i]);
            assert(visit_step(words[i + 1], blocks[i + 1], words[i + 2]));
        }
        assert(ws.last() == words.last());
        law_iteration_visits_each_block_once(ws, bs);
        assert(visit_step(words[0], blocks[0], words[1]));
        assert forall|i: int, j: int| 0 <= i < j < blocks.len() implies blocks[i] < blocks[j] by {
            if i > 0 {
                assert(bs[i - 1] < bs[j - 1]);
            } else {
                assert(bs.contains(bs[j - 1]));
                assert(top_bit_usize(ws[0], blocks[j]));
                assert(top_bit_usize(words[0], blocks[j]) && blocks[j] != blocks[0]);
            }
        }
        assert forall|c: u32| #[trigger] top_bit_usize(words[0], c) <==> blocks.contains(c) by {
            if top_bit_usize(words[0], c) {
                if c == blocks[0] {
                    assert(blocks[0] == c);
                } else {
                    assert(top_bit_usize(ws[0], c));
                    let k = choose|k: int| 0 <= k < bs.len() && bs[k] == c;
                    assert(blocks[k + 1] == c);
                }
            }
            if blocks.contains(c) {
                let k = choose|k: int| 0 <= k < blocks.len() && blocks[k] == c;
                if k > 0 {
                    assert(bs[k - 1] == c);
                    assert(bs.contains(c));
                    assert(top_bit_usize(ws[0], c));
                }
            }
        }
    }
}

} // verus!
