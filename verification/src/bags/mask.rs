use vstd::prelude::*;

use crate::bits::{
    bit_u32, count_where, lemma_count_bound, lemma_count_ext, lemma_count_remove, lemma_count_zero,
    popcount_u32, top_bit_u32, top_bits_u32,
};

verus! {

/// Number of value slots of a multi-producer multi-consumer bag.
pub const NUM_SLOTS: u32 = 30;

/// Number of status bits sharing the word with the slot bits.
pub const NUM_STATUS_BITS: u32 = 2;

/// The status bit telling that every counterparty is gone.
pub const COUNTERPARTY_DEAD: u32 = 1;

/// The status bit telling that someone sleeps on the word.
pub const SLEEPING: u32 = 2;

/// Both status bits.
pub const STATUS_ALL: u32 = 3;

/// Slot `s` belongs to the cyclic run of `avail` slots that starts at slot
/// `bias`, among the `NUM_SLOTS` slots.
pub open spec fn requested_slot(s: u32, bias: u32, avail: u32) -> bool {
    s < NUM_SLOTS && ((bias <= s && s < bias + avail) || s + NUM_SLOTS < bias + avail)
}

/// The number of slots a sender asks for when it holds `items` items.
pub open spec fn request_size(items: usize) -> u32 {
    if items < NUM_SLOTS {
        items as u32
    } else {
        NUM_SLOTS
    }
}

/// The slots that a sender holding `available_items` items, whose bias is
/// `bias`, tries to reserve: the cyclic run of `min(available_items, 30)`
/// slots starting at slot `bias`. Slot `s` is bit `31 - s` of the word, so
/// the two status bits at the bottom of the word are never requested.
pub fn compute_request_mask(available_items: usize, bias: u32) -> (r: u32)
    requires
        available_items >= 1,
        bias < NUM_SLOTS,
    ensures
        forall|s: u32|
            s < 32 ==> (#[trigger] top_bit_u32(r, s) <==> requested_slot(
                s,
                bias,
                request_size(available_items),
            )),
        r & STATUS_ALL == 0,
        popcount_u32(r) == request_size(available_items),
        popcount_u32(r) <= available_items,
{
    let available: u32 = if available_items < 30 {
        available_items as u32
    } else {
        30
    };
    let mask = !(u32::MAX >> available);
    let amount: u32 = if bias == 0 { 0 } else { bias + NUM_STATUS_BITS };
    let back: u32 = 32 - amount;
    let overstepped = if bias == 0 { 0 } else { (mask >> amount) | (mask << back) };
    let r = if bias == 0 {
        mask
    } else {
        (overstepped & !(u32::MAX >> bias)) | (overstepped << NUM_STATUS_BITS)
    };
    proof {
        assert forall|s: u32| s < 32 implies (#[trigger] top_bit_u32(r, s) <==> requested_slot(
            s,
            bias,
            available,
        )) by {
            let j = (31 - s) as u32;
            assert(((r >> j) & 1u32 == 1u32) == (s < 30u32 && ((bias <= s && s < bias
                + available) || s + 30u32 < bias + available))) by (bit_vector)
                requires
                    1u32 <= available <= 30u32,
                    bias < 30u32,
                    s < 32u32,
                    j == 31u32 - s,
                    mask == !(0xffff_ffffu32 >> available),
                    bias == 0u32 ==> r == mask,
                    bias != 0u32 ==> amount == bias + 2u32,
                    back == 32u32 - amount,
                    bias != 0u32 ==> overstepped == (mask >> amount) | (mask << back),
                    bias != 0u32 ==> r == (overstepped & !(0xffff_ffffu32 >> bias)) | (overstepped
                        << 2u32),
            ;
        }
        assert(r & 3u32 == 0u32) by (bit_vector)
            requires
                1u32 <= available <= 30u32,
                bias < 30u32,
                mask == !(0xffff_ffffu32 >> available),
                bias == 0u32 ==> r == mask,
                bias != 0u32 ==> amount == bias + 2u32,
                back == 32u32 - amount,
                bias != 0u32 ==> overstepped == (mask >> amount) | (mask << back),
                bias != 0u32 ==> r == (overstepped & !(0xffff_ffffu32 >> bias)) | (overstepped
                    << 2u32),
        ;
        let q = |s: u32| requested_slot(s, bias, available);
        lemma_count_ext(top_bits_u32(r), q, 32);
        lemma_count_requested(bias, available, 32);
    }
    r
}

/// Slots of the requested run below `m` that do not wrap around.
spec fn run_below(m: int, bias: int, avail: int) -> int {
    let hi = if m < bias + avail {
        m
    } else {
        bias + avail
    };
    if hi > bias {
        hi - bias
    } else {
        0
    }
}

/// Slots of the requested run below `m` that wrap around to the front.
spec fn wrap_below(m: int, bias: int, avail: int) -> int {
    let hi = if m < bias + avail - 30 {
        m
    } else {
        bias + avail - 30
    };
    if hi > 0 {
        hi
    } else {
        0
    }
}

/// The requested run holds `avail` slots.
proof fn lemma_count_requested(bias: u32, avail: u32, n: nat)
    requires
        bias < NUM_SLOTS,
        1 <= avail <= NUM_SLOTS,
        n <= 32,
    ensures
        count_where(|s: u32| requested_slot(s, bias, avail), n) == run_below(
            if n < 30 {
                n as int
            } else {
                30
            },
            bias as int,
            avail as int,
        ) + wrap_below(
            if n < 30 {
                n as int
            } else {
                30
            },
            bias as int,
            avail as int,
        ),
        n == 32 ==> count_where(|s: u32| requested_slot(s, bias, avail), n) == avail,
    decreases n,
{
    if n > 0 {
        lemma_count_requested(bias, avail, (n - 1) as nat);
    }
}

/// Counts the set bits of a word.
pub fn count_ones_u32(x: u32) -> (r: u32)
    ensures
        r == popcount_u32(x),
        r <= 32,
{
    let mut c: u32 = 0;
    let mut s: u32 = 0;
    while s < 32
        invariant
            s <= 32,
            c == count_where(top_bits_u32(x), s as nat),
            c <= s,
        decreases 32 - s,
    {
        proof {
            lemma_count_bound(top_bits_u32(x), s as nat);
        }
        if (x >> (31 - s)) & 1 == 1 {
            c = c + 1;
        }
        s = s + 1;
    }
    c
}

/// Clearing the lowest set bit of a word clears its highest set slot.
proof fn lemma_clear_lowest(x: u32) -> (k: u32)
    requires
        x != 0,
    ensures
        k < 32,
        top_bit_u32(x, k),
        forall|s: u32| k < s < 32 ==> !#[trigger] top_bit_u32(x, s),
        !top_bit_u32(x & ((x - 1) as u32), k),
        forall|s: u32| s < 32 && s != k ==> #[trigger] top_bit_u32(x & ((x - 1) as u32), s) == top_bit_u32(x, s),
{
    vstd::std_specs::bits::axiom_u32_trailing_zeros(x);
    let p = vstd::std_specs::bits::u32_trailing_zeros(x);
    let k = (31 - p) as u32;
    let y = x & ((x - 1) as u32);
    assert((x >> p) & 1u32 == 1u32);
    let sh = (32 - p) as u32;
    assert(x << sh == 0);
    assert forall|s: u32| s < 32 implies #[trigger] top_bit_u32(y, s) == (top_bit_u32(x, s) && s != k) && (k < s ==> !top_bit_u32(x, s)) by {
        let j = (31 - s) as u32;
        assert((((y >> j) & 1u32 == 1u32) == ((x >> j) & 1u32 == 1u32 && j != p)) && (j < p ==> (x >> j) & 1u32 != 1u32)) by (bit_vector)
            requires
                x != 0u32,
                p < 32u32,
                (x >> p) & 1u32 == 1u32,
                sh == 32u32 - p,
                x << sh == 0u32,
                y == x & ((x - 1u32) as u32),
                j < 32u32,
        ;
    }
    k
}

/// Clearing the highest set bit of a word clears its lowest set slot.
proof fn lemma_clear_highest(x: u32) -> (k: u32)
    requires
        x != 0,
    ensures
        k == vstd::std_specs::bits::u32_leading_zeros(x),
        k < 32,
        top_bit_u32(x, k),
        forall|s: u32| s < k ==> !#[trigger] top_bit_u32(x, s),
        !top_bit_u32(x & !(1u32 << (31 - k) as u32), k),
        forall|s: u32|
            s < 32 && s != k ==> #[trigger] top_bit_u32(x & !(1u32 << (31 - k) as u32), s)
                == top_bit_u32(x, s),
{
    vstd::std_specs::bits::axiom_u32_leading_zeros(x);
    let k = vstd::std_specs::bits::u32_leading_zeros(x);
    let q = (31 - k) as u32;
    let y = x & !(1u32 << q);
    assert((x >> q) & 1u32 != 0u32);
    assert((x >> q) & 1u32 != 0u32 ==> (x >> q) & 1u32 == 1u32) by (bit_vector);
    assert forall|s: u32| s < 32 implies #[trigger] top_bit_u32(y, s) == (top_bit_u32(x, s) && s != k) && (s < k ==> !top_bit_u32(x, s)) by {
        let j = (31 - s) as u32;
        if s < k {
            assert(32 - k <= j < 32);
            assert((x >> j) & 1u32 == 0u32);
        }
        assert((((y >> j) & 1u32 == 1u32) == ((x >> j) & 1u32 == 1u32 && j != q)) && ((x >> j) & 1u32 == 0u32 ==> (x >> j) & 1u32 != 1u32)) by (bit_vector)
            requires
                q < 32u32,
                y == x & !(1u32 << q),
                j < 32u32,
        ;
    }
    k
}

/// Slot `s` was set in `mask` and is clear in `kept`.
pub open spec fn dropped_slot(mask: u32, kept: u32, s: u32) -> bool {
    top_bit_u32(mask, s) && !top_bit_u32(kept, s)
}

/// `r` keeps at most `max` of the set bits of `mask`: as many as it can, and
/// the most significant ones (the lowest slots) when `direction` is false, the
/// least significant ones (the highest slots) when it is true.
pub open spec fn keeps_extra_bits(mask: u32, max: usize, direction: bool, r: u32) -> bool {
    &&& forall|s: u32| s < 32 ==> #[trigger] top_bit_u32(r, s) ==> top_bit_u32(mask, s)
    &&& popcount_u32(r) == if popcount_u32(mask) < max {
        popcount_u32(mask)
    } else {
        max as nat
    }
    &&& !direction ==> forall|s: u32, t: u32|
        s < 32 && t < 32 && #[trigger] dropped_slot(mask, r, s) && #[trigger] top_bit_u32(r, t)
            ==> t < s
    &&& direction ==> forall|s: u32, t: u32|
        s < 32 && t < 32 && #[trigger] dropped_slot(mask, r, s) && #[trigger] top_bit_u32(r, t)
            ==> s < t
}

/// Keeps at most `max` of the set bits of `mask`: the most significant ones
/// (the lowest slots) when `direction` is false, the least significant ones
/// (the highest slots) when it is true.
pub fn clear_extra_bits(mask: u32, max: usize, direction: bool) -> (r: u32)
    requires
        max >= 1,
    ensures
        keeps_extra_bits(mask, max, direction, r),
{
    let mut m = mask;
    let c = count_ones_u32(mask);
    let mut set_bits: usize = c as usize;
    while set_bits > max
        invariant
            max >= 1,
            set_bits == popcount_u32(m),
            popcount_u32(mask) <= max ==> m == mask,
            popcount_u32(mask) > max ==> set_bits >= max,
            forall|s: u32| s < 32 ==> #[trigger] top_bit_u32(m, s) ==> top_bit_u32(mask, s),
            !direction ==> forall|s: u32, t: u32|
                s < 32 && t < 32 && #[trigger] dropped_slot(mask, m, s) && #[trigger] top_bit_u32(m, t)
                    ==> t < s,
            direction ==> forall|s: u32, t: u32|
                s < 32 && t < 32 && #[trigger] dropped_slot(mask, m, s) && #[trigger] top_bit_u32(m, t)
                    ==> s < t,
        decreases set_bits,
    {
        proof {
            if m == 0 {
                lemma_count_zero(top_bits_u32(m), 32);
                assert forall|s: u32| s < 32 implies !#[trigger] top_bits_u32(m)(s) by {
                    assert(0u32 >> (31 - s) as u32 == 0u32) by (bit_vector);
                }
            }
        }
        let old_m = m;
        if direction {
            let k = m.leading_zeros();
            proof {
                let kk = lemma_clear_highest(m);
            }
            m = m & !(1u32 << (31 - k));
            proof {
                lemma_count_remove(top_bits_u32(m), top_bits_u32(old_m), 32, k);
                assert forall|s: u32, t: u32|
                    s < 32 && t < 32 && #[trigger] dropped_slot(mask, m, s) && #[trigger] top_bit_u32(m, t)
                        implies s < t by {
                    if s != k {
                        assert(dropped_slot(mask, old_m, s));
                        assert(top_bit_u32(old_m, t));
                    }
                }
            }
        } else {
            m = m & (m - 1);
            proof {
                let k = lemma_clear_lowest(old_m);
                lemma_count_remove(top_bits_u32(m), top_bits_u32(old_m), 32, k);
                assert forall|s: u32, t: u32|
                    s < 32 && t < 32 && #[trigger] dropped_slot(mask, m, s) && #[trigger] top_bit_u32(m, t)
                        implies t < s by {
                    if s != k {
                        assert(dropped_slot(mask, old_m, s));
                        assert(top_bit_u32(old_m, t));
                    }
                }
            }
        }
        set_bits = set_bits - 1;
    }
    m
}

/// The slots below `n` set in `mask`, in increasing order: the slots a
/// reservation or a claim covers.
pub fn drain_mask(mask: u32, n: usize) -> (indices: Vec<usize>)
    requires
        n <= 32,
    ensures
        forall|k: int| 0 <= k < indices@.len() ==> #[trigger] indices@[k] < n && top_bit_u32(mask, indices@[k] as u32),
        forall|k1: int, k2: int| 0 <= k1 < k2 < indices@.len() ==> #[trigger] indices@[k1] < #[trigger] indices@[k2],
        forall|s: u32| s < n ==> (top_bit_u32(mask, s) <==> #[trigger] indices@.contains(s as usize)),
        indices@.len() <= popcount_u32(mask),
        indices@.len() <= n,
        (forall|s: u32| n <= s < 32 ==> !#[trigger] top_bit_u32(mask, s)) ==> indices@.len() == popcount_u32(mask),
{
    let mut cur = mask;
    let mut indices: Vec<usize> = Vec::new();
    loop
        invariant
            n <= 32,
            forall|k: int| 0 <= k < indices@.len() ==> #[trigger] indices@[k] < n && top_bit_u32(mask, indices@[k] as u32),
            forall|k1: int, k2: int| 0 <= k1 < k2 < indices@.len() ==> #[trigger] indices@[k1] < #[trigger] indices@[k2],
            forall|s: u32| s < 32 ==> (#[trigger] top_bit_u32(cur, s) <==> (top_bit_u32(mask, s) && !indices@.contains(s as usize))),
            forall|k: int, s: u32| 0 <= k < indices@.len() && s < 32 && #[trigger] top_bit_u32(cur, s) ==> #[trigger] indices@[k] < s,
            indices@.len() + popcount_u32(cur) == popcount_u32(mask),
            forall|k: int| 0 <= k < indices@.len() ==> #[trigger] indices@[k] >= k,
        ensures
            forall|k: int| 0 <= k < indices@.len() ==> #[trigger] indices@[k] >= k,
            forall|k: int| 0 <= k < indices@.len() ==> #[trigger] indices@[k] < n && top_bit_u32(mask, indices@[k] as u32),
            forall|k1: int, k2: int| 0 <= k1 < k2 < indices@.len() ==> #[trigger] indices@[k1] < #[trigger] indices@[k2],
            forall|s: u32| s < 32 ==> (#[trigger] top_bit_u32(cur, s) <==> (top_bit_u32(mask, s) && !indices@.contains(s as usize))),
            forall|s: u32| s < n ==> !#[trigger] top_bit_u32(cur, s),
            indices@.len() + popcount_u32(cur) == popcount_u32(mask),
        decreases popcount_u32(cur),
    {
        let i = cur.leading_zeros();
        proof {
            vstd::std_specs::bits::axiom_u32_leading_zeros(cur);
            if i < 32 {
                let kk = lemma_clear_highest(cur);
            } else {
                assert(cur == 0);
                assert forall|s: u32| s < 32 implies !#[trigger] top_bit_u32(cur, s) by {
                    assert(0u32 >> (31 - s) as u32 == 0u32) by (bit_vector);
                }
            }
            assert forall|s: u32| s < i && s < 32 implies !#[trigger] top_bit_u32(cur, s) by {
                if i < 32 {
                    let kk = lemma_clear_highest(cur);
                }
            }
        }
        if i as usize >= n {
            break;
        }
        let ghost old_cur = cur;
        let ghost old_indices = indices@;
        indices.push(i as usize);
        cur = cur & !(1u32 << (31 - i));
        proof {
            let k = lemma_clear_highest(old_cur);
            lemma_count_remove(top_bits_u32(cur), top_bits_u32(old_cur), 32, k);
            assert forall|s: u32| s < 32 implies (#[trigger] top_bit_u32(cur, s) <==> (top_bit_u32(mask, s) && !indices@.contains(s as usize))) by {
                if s == i {
                    assert(indices@[indices@.len() - 1] == s as usize);
                } else {
                    assert(indices@.contains(s as usize) <==> old_indices.contains(s as usize)) by {
                        if indices@.contains(s as usize) {
                            let w = choose|w: int| 0 <= w < indices@.len() && indices@[w] == s as usize;
                            if w < old_indices.len() {
                                assert(old_indices[w] == s as usize);
                            }
                        }
                        if old_indices.contains(s as usize) {
                            let w = choose|w: int| 0 <= w < old_indices.len() && old_indices[w] == s as usize;
                            assert(indices@[w] == s as usize);
                        }
                    }
                }
            }
            assert forall|k1: int, s: u32| 0 <= k1 < indices@.len() && s < 32 && #[trigger] top_bit_u32(cur, s) implies #[trigger] indices@[k1] < s by {
                assert(top_bit_u32(old_cur, s));
                if k1 < old_indices.len() {
                    assert(old_indices[k1] == indices@[k1]);
                }
            }
            assert forall|k1: int| 0 <= k1 < indices@.len() implies #[trigger] indices@[k1] >= k1 by {
                if k1 == indices@.len() - 1 && k1 > 0 {
                    assert(old_indices[k1 - 1] == indices@[k1 - 1]);
                    assert(old_indices[k1 - 1] >= k1 - 1);
                    assert(top_bit_u32(old_cur, i));
                } else if k1 < old_indices.len() {
                    assert(old_indices[k1] == indices@[k1]);
                }
            }
            assert forall|k1: int, k2: int| 0 <= k1 < k2 < indices@.len() implies #[trigger] indices@[k1] < #[trigger] indices@[k2] by {
                if k2 == indices@.len() - 1 {
                    assert(old_indices[k1] == indices@[k1]);
                    assert(top_bit_u32(old_cur, i));
                } else {
                    assert(old_indices[k1] == indices@[k1]);
                    assert(old_indices[k2] == indices@[k2]);
                }
            }
        }
    }
    proof {
        if indices@.len() > 0 {
            assert(indices@[indices@.len() - 1] >= indices@.len() - 1);
        }
        assert forall|s: u32| s < n implies (top_bit_u32(mask, s) <==> #[trigger] indices@.contains(s as usize)) by {
            assert(!top_bit_u32(cur, s));
            if indices@.contains(s as usize) {
                let w = choose|w: int| 0 <= w < indices@.len() && indices@[w] == s as usize;
                assert(top_bit_u32(mask, indices@[w] as u32));
            }
        }
        if forall|s: u32| n <= s < 32 ==> !#[trigger] top_bit_u32(mask, s) {
            assert forall|s: u32| s < 32 implies !#[trigger] top_bits_u32(cur)(s) by {
                if s >= n {
                    assert(!top_bit_u32(mask, s));
                }
                assert(!top_bit_u32(cur, s));
            }
            lemma_count_zero(top_bits_u32(cur), 32);
        }
    }
    indices
}

} // verus!
