use vstd::prelude::*;

verus! {

/// Bit `i` (counted from the least significant bit) of a 32-bit word.
pub open spec fn bit_u32(x: u32, i: u32) -> bool {
    (x >> i) & 1u32 == 1u32
}

/// Bit `31 - c` of a 32-bit word: position `c` counted from the most
/// significant bit.
pub open spec fn top_bit_u32(x: u32, c: u32) -> bool {
    bit_u32(x, (31 - c) as u32)
}

/// Number of indices below `n` that satisfy `p`.
pub open spec fn count_where(p: spec_fn(u32) -> bool, n: nat) -> nat
    decreases n,
{
    if n == 0 {
        0
    } else {
        count_where(p, (n - 1) as nat) + if p((n - 1) as u32) {
            1nat
        } else {
            0nat
        }
    }
}

/// The set positions of a 32-bit word, counted from the most significant bit.
pub open spec fn top_bits_u32(x: u32) -> spec_fn(u32) -> bool {
    |s: u32| top_bit_u32(x, s)
}

/// Number of set bits of a 32-bit word.
pub open spec fn popcount_u32(x: u32) -> nat {
    count_where(top_bits_u32(x), 32)
}

/// Counting is monotone in the predicate.
pub proof fn lemma_count_mono(p: spec_fn(u32) -> bool, q: spec_fn(u32) -> bool, n: nat)
    requires
        n <= 0x1_0000_0000,
        forall|s: u32| s < n ==> #[trigger] p(s) ==> q(s),
    ensures
        count_where(p, n) <= count_where(q, n),
    decreases n,
{
    if n > 0 {
        lemma_count_mono(p, q, (n - 1) as nat);
        assert(((n - 1) as u32) < n);
    }
}

/// Counting only depends on the predicate below the bound.
pub proof fn lemma_count_ext(p: spec_fn(u32) -> bool, q: spec_fn(u32) -> bool, n: nat)
    requires
        n <= 0x1_0000_0000,
        forall|s: u32| s < n ==> #[trigger] p(s) == q(s),
    ensures
        count_where(p, n) == count_where(q, n),
    decreases n,
{
    if n > 0 {
        lemma_count_ext(p, q, (n - 1) as nat);
        assert(((n - 1) as u32) < n);
    }
}

/// Dropping one satisfied index from the predicate lowers the count by one.
pub proof fn lemma_count_remove(p: spec_fn(u32) -> bool, q: spec_fn(u32) -> bool, n: nat, k: u32)
    requires
        n <= 0x1_0000_0000,
        k < n,
        q(k),
        !p(k),
        forall|s: u32| s < n && s != k ==> #[trigger] p(s) == q(s),
    ensures
        count_where(p, n) + 1 == count_where(q, n),
    decreases n,
{
    if n - 1 == k {
        lemma_count_ext(p, q, (n - 1) as nat);
    } else {
        lemma_count_remove(p, q, (n - 1) as nat, k);
        assert(((n - 1) as u32) < n);
    }
}

/// At most `n` indices below `n` satisfy any predicate.
pub proof fn lemma_count_bound(p: spec_fn(u32) -> bool, n: nat)
    ensures
        count_where(p, n) <= n,
    decreases n,
{
    if n > 0 {
        lemma_count_bound(p, (n - 1) as nat);
    }
}

/// No index satisfies the predicate iff the count is zero.
pub proof fn lemma_count_zero(p: spec_fn(u32) -> bool, n: nat)
    requires
        n <= 0x1_0000_0000,
    ensures
        count_where(p, n) == 0 <==> forall|s: u32| s < n ==> !#[trigger] p(s),
    decreases n,
{
    if n > 0 {
        lemma_count_zero(p, (n - 1) as nat);
        assert(((n - 1) as u32) < n);
        if count_where(p, n) == 0 {
            assert forall|s: u32| s < n implies !#[trigger] p(s) by {
                if s < n - 1 {
                } else {
                    assert(s == (n - 1) as u32);
                }
            }
        }
    }
}

/// A word whose every bit is clear is zero.
pub proof fn lemma_zero_bits_u32(d: u32)
    requires
        forall|i: u32| i < 32 ==> #[trigger] ((d >> i) & 1u32) == 0u32,
    ensures
        d == 0,
{
    vstd::std_specs::bits::axiom_u32_trailing_zeros(d);
    let t = vstd::std_specs::bits::u32_trailing_zeros(d);
    if t < 32 {
        assert(((d >> t) & 1u32) == 0u32);
    }
}

} // verus!
