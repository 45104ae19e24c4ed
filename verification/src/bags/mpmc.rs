use vstd::prelude::*;

use std::sync::atomic::{AtomicU32, Ordering};
use std::sync::{Arc, Mutex};

use crate::bags::buffer::{SendBuffer, SendBufferContainer};
use crate::bags::error::{RecvError, SendError, TryRecvError, TrySendError};
use crate::bags::mask::{
    clear_extra_bits, compute_request_mask, drain_mask, keeps_extra_bits, COUNTERPARTY_DEAD,
    NUM_SLOTS, SLEEPING, STATUS_ALL,
};
use crate::bits::{count_where, lemma_count_mono, lemma_count_zero, popcount_u32, top_bit_u32, top_bits_u32};
use crate::sync::{
    arc_clone, atomic_sleep, atomic_u32_fetch_and, atomic_u32_fetch_or, atomic_u32_fetch_sub,
    atomic_wake, mutex_new, mutex_replace,
};

verus! {

/// The slots of a word that are free: neither reserved nor a status bit.
pub open spec fn free_slots(word: u32) -> u32 {
    !(word | STATUS_ALL)
}

/// What a sender does after asking for the slots of `request` and learning
/// that the send word held `prev` just before.
#[derive(PartialEq, Eq, Structural, Debug, Clone, Copy)]
pub enum ReserveStep {
    /// Every receiver is gone.
    Disconnected,
    /// Every slot was taken.
    Full,
    /// These slots are now ours.
    Reserved(u32),
    /// None of the requested slots was free, but some other slot was: ask
    /// for free ones.
    Retry,
}

/// The step a sender takes when its request for the slots of `request` met
/// the send word `prev`.
pub open spec fn reserve_step_spec(prev: u32, request: u32) -> ReserveStep {
    if prev & COUNTERPARTY_DEAD != 0 {
        ReserveStep::Disconnected
    } else if prev | STATUS_ALL == u32::MAX {
        ReserveStep::Full
    } else if request & free_slots(prev) != 0 {
        ReserveStep::Reserved(request & free_slots(prev))
    } else {
        ReserveStep::Retry
    }
}

/// What a receiver does after claiming every committed slot and learning
/// that the receive word held `prev` just before.
#[derive(PartialEq, Eq, Structural, Debug, Clone, Copy)]
pub enum ClaimStep {
    /// Nothing was committed and every sender is gone.
    Disconnected,
    /// Nothing was committed.
    Empty,
    /// These slots hold values that are now ours.
    Claimed(u32),
}

/// The step a receiver takes when claiming met the receive word `prev`,
/// whose status bits are stored inverted: a clear bit means the flag is up.
pub open spec fn claim_step_spec(prev: u32) -> ClaimStep {
    if prev & !STATUS_ALL != 0 {
        ClaimStep::Claimed(prev & !STATUS_ALL)
    } else if prev & COUNTERPARTY_DEAD == 0 {
        ClaimStep::Disconnected
    } else {
        ClaimStep::Empty
    }
}

/// What a blocked party does after reading its word while waiting.
#[derive(PartialEq, Eq, Structural, Debug, Clone, Copy)]
pub enum WaitStep {
    /// The other side made progress: try again.
    Retry,
    /// The other side is gone.
    Disconnected,
    /// The sleep flag is up: go to sleep until the word changes.
    Sleep,
    /// Look again.
    Spin,
}

/// Bits of a conjunction, slot by slot.
proof fn lemma_and_slots(x: u32, y: u32, s: u32)
    requires
        s < 32,
    ensures
        top_bit_u32(x & y, s) == (top_bit_u32(x, s) && top_bit_u32(y, s)),
        top_bit_u32(!x, s) == !top_bit_u32(x, s),
        top_bit_u32(x | y, s) == (top_bit_u32(x, s) || top_bit_u32(y, s)),
{
    let j = (31 - s) as u32;
    assert(j < 32 ==> ((((x & y) >> j) & 1u32 == 1u32) == (((x >> j) & 1u32 == 1u32) && ((y >> j)
        & 1u32 == 1u32))) && ((((!x) >> j) & 1u32 == 1u32) == !((x >> j) & 1u32 == 1u32)) && ((((x
        | y) >> j) & 1u32 == 1u32) == (((x >> j) & 1u32 == 1u32) || ((y >> j) & 1u32 == 1u32))))
        by (bit_vector);
}

/// A word with a set slot has a positive number of set bits.
proof fn lemma_popcount_pos(x: u32, s: u32)
    requires
        s < 32,
        top_bit_u32(x, s),
    ensures
        popcount_u32(x) >= 1,
{
    lemma_count_zero(top_bits_u32(x), 32);
    assert(top_bits_u32(x)(s));
}

/// A word with no set slot is zero, and zero has no set slot.
proof fn lemma_no_slots(x: u32)
    ensures
        (forall|s: u32| s < 32 ==> !#[trigger] top_bit_u32(x, s)) <==> x == 0,
{
    if forall|s: u32| s < 32 ==> !#[trigger] top_bit_u32(x, s) {
        assert forall|i: u32| i < 32 implies #[trigger] ((x >> i) & 1u32) == 0u32 by {
            assert(!top_bit_u32(x, (31 - i) as u32));
            assert(i < 32 ==> (x >> i) & 1u32 == 0u32 || (x >> i) & 1u32 == 1u32) by (bit_vector);
        }
        crate::bits::lemma_zero_bits_u32(x);
    }
    if x == 0 {
        assert forall|s: u32| s < 32 implies !#[trigger] top_bit_u32(x, s) by {
            assert(x == 0u32 ==> (x >> (31 - s) as u32) & 1u32 == 0u32) by (bit_vector);
        }
    }
}

/// The status bits of a word are its slots 30 and 31.
proof fn lemma_status_slots(x: u32)
    ensures
        (x & STATUS_ALL == 0) <==> (!top_bit_u32(x, 30) && !top_bit_u32(x, 31)),
        (x & COUNTERPARTY_DEAD != 0) <==> top_bit_u32(x, 31),
        (x & SLEEPING != 0) <==> top_bit_u32(x, 30),
{
    assert(((x & 3u32 == 0u32) == (!((x >> 1u32) & 1u32 == 1u32) && !((x >> 0u32) & 1u32
        == 1u32))) && ((x & 1u32 != 0u32) == ((x >> 0u32) & 1u32 == 1u32)) && ((x & 2u32 != 0u32)
        == ((x >> 1u32) & 1u32 == 1u32))) by (bit_vector);
}

/// The status bits of the receive word are stored inverted.
proof fn lemma_inverted_status(word: u32)
    by (bit_vector)
    ensures
        ((!word) & 1u32 != 0u32) == (word & 1u32 == 0u32),
        ((!word) & 2u32 != 0u32) == (word & 2u32 == 0u32),
{
}

/// Decides what a sender does once its request met the send word `prev`.
pub fn reserve_step(prev: u32, request: u32) -> (r: ReserveStep)
    ensures
        r == reserve_step_spec(prev, request),
        r matches ReserveStep::Reserved(x) ==> x & STATUS_ALL == 0 && x & prev == 0 && x & !request
            == 0 && popcount_u32(x) <= popcount_u32(request),
{
    if prev & COUNTERPARTY_DEAD != 0 {
        return ReserveStep::Disconnected;
    }
    let slots = prev | STATUS_ALL;
    if slots == u32::MAX {
        return ReserveStep::Full;
    }
    let reserved = !slots & request;
    proof {
        let free = !slots;
        assert forall|s: u32| s < 32 implies (#[trigger] top_bit_u32(reserved, s) ==> top_bit_u32(request, s)) by {
            lemma_and_slots(free, request, s);
        }
        lemma_count_mono(top_bits_u32(reserved), top_bits_u32(request), 32);
        assert(reserved & 3u32 == 0u32 && reserved & prev == 0u32 && reserved & !request == 0u32 && reserved == request & !(prev | 3u32)) by (bit_vector)
            requires
                reserved == !(prev | 3u32) & request,
        ;
    }
    if reserved > 0 {
        return ReserveStep::Reserved(reserved);
    }
    ReserveStep::Retry
}

/// The free slots a sender asks for next, after none of the slots it asked
/// for was free in the send word `prev`: as many free slots as it has
/// items, trimmed from the left or from the right by the parity of its bias.
pub fn retry_request(prev: u32, items: usize, bias: u32) -> (m: u32)
    requires
        items >= 1,
        prev | STATUS_ALL != u32::MAX,
    ensures
        keeps_extra_bits(free_slots(prev), items, bias % 2 == 0, m),
        m != 0,
        m & STATUS_ALL == 0,
        popcount_u32(m) <= items,
{
    let free = !(prev | STATUS_ALL);
    let m = clear_extra_bits(free, items, bias % 2 == 0);
    proof {
        let slots = prev | 3u32;
        assert(free != 0u32 && free & 3u32 == 0u32) by (bit_vector)
            requires
                free == !slots,
                slots == prev | 3u32,
                slots != 0xffff_ffffu32,
        ;
        lemma_no_slots(free);
        let s = choose|s: u32| s < 32 && #[trigger] top_bit_u32(free, s);
        lemma_popcount_pos(free, s);
        if m == 0 {
            lemma_no_slots(m);
            lemma_count_zero(top_bits_u32(m), 32);
            assert forall|t: u32| t < 32 implies !#[trigger] top_bits_u32(m)(t) by {
                assert(!top_bit_u32(m, t));
            }
        }
        lemma_status_slots(free);
        lemma_status_slots(m);
        assert(top_bit_u32(m, 30) ==> top_bit_u32(free, 30));
        assert(top_bit_u32(m, 31) ==> top_bit_u32(free, 31));
    }
    m
}

/// Decides what a receiver does once it claimed every committed slot and
/// learned that the receive word held `prev`. The status bits of the
/// receive word are stored inverted: a clear bit means the flag is up.
pub fn claim_step(prev: u32) -> (r: ClaimStep)
    ensures
        r == claim_step_spec(prev),
        r matches ClaimStep::Claimed(c) ==> c & STATUS_ALL == 0,
{
    let claimed = prev & !STATUS_ALL;
    assert(claimed & 3u32 == 0u32) by (bit_vector)
        requires
            claimed == prev & !3u32,
    ;
    if claimed == 0 {
        let status = !prev;
        proof {
            lemma_inverted_status(prev);
        }
        if status & COUNTERPARTY_DEAD != 0 {
            return ClaimStep::Disconnected;
        }
        return ClaimStep::Empty;
    }
    ClaimStep::Claimed(claimed)
}

/// Decides what a blocked sender does after reading the send word `word`.
pub fn sender_wait_step(word: u32) -> (r: WaitStep)
    ensures
        r == if word | STATUS_ALL < u32::MAX {
            WaitStep::Retry
        } else if word & COUNTERPARTY_DEAD != 0 {
            WaitStep::Disconnected
        } else if word & SLEEPING != 0 {
            WaitStep::Sleep
        } else {
            WaitStep::Spin
        },
{
    if word | STATUS_ALL < u32::MAX {
        WaitStep::Retry
    } else if word & COUNTERPARTY_DEAD != 0 {
        WaitStep::Disconnected
    } else if word & SLEEPING != 0 {
        WaitStep::Sleep
    } else {
        WaitStep::Spin
    }
}

/// Decides what a blocked receiver does after reading the receive word
/// `word`, whose status bits are stored inverted.
pub fn receiver_wait_step(word: u32) -> (r: WaitStep)
    ensures
        r == if word & !STATUS_ALL > 0 {
            WaitStep::Retry
        } else if word & COUNTERPARTY_DEAD == 0 {
            WaitStep::Disconnected
        } else if word & SLEEPING == 0 {
            WaitStep::Sleep
        } else {
            WaitStep::Spin
        },
{
    if word & !STATUS_ALL > 0 {
        return WaitStep::Retry;
    }
    let status = !word;
    proof {
        lemma_inverted_status(word);
    }
    if status & COUNTERPARTY_DEAD != 0 {
        WaitStep::Disconnected
    } else if status & SLEEPING != 0 {
        WaitStep::Sleep
    } else {
        WaitStep::Spin
    }
}

/// On an idle bag, whose send word is zero and whose receive word holds only
/// its (inverted, so lowered) status bits, a request for some slots is
/// granted in full; once the sender commits them the receiver claims exactly
/// those slots, leaving the receive word idle; and once the receiver
/// releases them the send word is idle again.
pub proof fn law_idle_round_trip(request: u32)
    requires
        request != 0,
        request & STATUS_ALL == 0,
    ensures
        reserve_step_spec(0, request) == ReserveStep::Reserved(request),
        claim_step_spec(STATUS_ALL | (request | STATUS_ALL)) == ClaimStep::Claimed(request),
        (STATUS_ALL | (request | STATUS_ALL)) & STATUS_ALL == STATUS_ALL,
        (0 | request) & (!request & !STATUS_ALL) == 0,
{
    assert(0u32 & 1u32 == 0u32 && 0u32 | 3u32 != 0xffff_ffffu32 && request & !(0u32 | 3u32)
        == request && (3u32 | (request | 3u32)) & !3u32 == request && (3u32 | (request | 3u32)) & !3u32 != 0u32
        && (3u32 | (request | 3u32)) & 3u32 == 3u32 && (0u32 | request) & (!request & !3u32) == 0u32)
        by (bit_vector)
        requires
            request & 3u32 == 0u32,
            request != 0u32,
    ;
}

/// A reservation only ever takes slots that were free and were asked for,
/// and never a status bit.
pub proof fn law_reservations_are_disjoint(prev: u32, request: u32)
    ensures
        reserve_step_spec(prev, request) matches ReserveStep::Reserved(x) ==> x != 0 && x & prev
            == 0 && x & !request == 0 && x & STATUS_ALL == 0,
{
    assert(((request & !(prev | 3u32)) & prev == 0u32) && ((request & !(prev | 3u32)) & !request
        == 0u32) && ((request & !(prev | 3u32)) & 3u32 == 0u32)) by (bit_vector);
}

/// Once every receiver is gone, every reservation fails with the
/// disconnection, whatever else the send word holds.
pub proof fn law_receivers_gone(prev: u32, request: u32)
    requires
        prev & COUNTERPARTY_DEAD != 0,
    ensures
        reserve_step_spec(prev, request) == ReserveStep::Disconnected,
{
}

/// Values committed before the last sender left are still claimed; only
/// the claim after them reports the disconnection.
pub proof fn law_committed_before_senders_gone(committed: u32, receiver_sleeping: bool)
    requires
        committed != 0,
        committed & STATUS_ALL == 0,
    ensures
        ({
            let word = committed | if receiver_sleeping {
                0u32
            } else {
                SLEEPING
            };
            &&& claim_step_spec(word) == ClaimStep::Claimed(committed)
            &&& claim_step_spec(word & STATUS_ALL) == ClaimStep::Disconnected
        }),
{
    let word = committed | if receiver_sleeping {
        0u32
    } else {
        SLEEPING
    };
    assert(word & !3u32 == committed && (word & 3u32) & !3u32 == 0u32 && (word & 3u32) & 1u32
        == 0u32) by (bit_vector)
        requires
            committed & 3u32 == 0u32,
            word == committed | 0u32 || word == committed | 2u32,
    ;
}

/// The words of a bag together with the slots that senders hold between
/// reserving and committing them, and that receivers hold between claiming
/// and releasing them.
pub struct BagWords {
    pub send: u32,
    pub recv: u32,
    pub reserved: u32,
    pub claimed: u32,
}

/// The slots committed in the receive word.
pub open spec fn committed_slots(w: BagWords) -> u32 {
    w.recv & !STATUS_ALL
}

/// Every slot of the send word is held by exactly one party: reserved by a
/// sender, committed for the receivers, or claimed by a receiver.
pub open spec fn slots_consistent(w: BagWords) -> bool {
    &&& w.reserved & STATUS_ALL == 0
    &&& w.claimed & STATUS_ALL == 0
    &&& w.reserved & committed_slots(w) == 0
    &&& w.reserved & w.claimed == 0
    &&& committed_slots(w) & w.claimed == 0
    &&& w.send & !STATUS_ALL == w.reserved | committed_slots(w) | w.claimed
}

/// A new bag: nothing reserved, committed or claimed.
pub open spec fn idle_bag() -> BagWords {
    BagWords { send: 0, recv: STATUS_ALL, reserved: 0, claimed: 0 }
}

/// A sender asks for `request`: the send word gains those bits, and the
/// sender now holds those that were free.
pub open spec fn after_request(w: BagWords, request: u32) -> BagWords {
    BagWords {
        send: w.send | request,
        reserved: w.reserved | (request & free_slots(w.send)),
        ..w
    }
}

/// A sender commits the slots `x` it held.
pub open spec fn after_commit(w: BagWords, x: u32) -> BagWords {
    BagWords { recv: w.recv | (x | STATUS_ALL), reserved: w.reserved & !x, ..w }
}

/// A receiver claims every committed slot.
pub open spec fn after_claim(w: BagWords) -> BagWords {
    BagWords { recv: w.recv & STATUS_ALL, claimed: w.claimed | committed_slots(w), ..w }
}

/// A receiver releases the slots `c` it claimed.
pub open spec fn after_release(w: BagWords, c: u32) -> BagWords {
    BagWords { send: w.send & (!c & !STATUS_ALL), claimed: w.claimed & !c, ..w }
}

/// A party raises a status flag of the send word, or lowers one of the
/// (inverted) receive word.
pub open spec fn after_flags(w: BagWords, raise_send: u32, lower_recv: u32) -> BagWords {
    BagWords { send: w.send | raise_send, recv: w.recv & !lower_recv, ..w }
}

/// The slot bookkeeping of each step, on plain words.
proof fn lemma_slot_steps(
    send: u32,
    recv: u32,
    reserved: u32,
    claimed: u32,
    request: u32,
    x: u32,
    c: u32,
    raise: u32,
    lower: u32,
)
    by (bit_vector)
    requires
        reserved & 3u32 == 0u32,
        claimed & 3u32 == 0u32,
        reserved & (recv & !3u32) == 0u32,
        reserved & claimed == 0u32,
        (recv & !3u32) & claimed == 0u32,
        send & !3u32 == reserved | (recv & !3u32) | claimed,
    ensures
        request & 3u32 == 0u32 ==> ({
            let s2 = send | request;
            let r2 = reserved | (request & !(send | 3u32));
            &&& r2 & 3u32 == 0u32
            &&& r2 & (recv & !3u32) == 0u32
            &&& r2 & claimed == 0u32
            &&& s2 & !3u32 == r2 | (recv & !3u32) | claimed
        }),
        x & !reserved == 0u32 ==> ({
            let v2 = recv | (x | 3u32);
            let r2 = reserved & !x;
            &&& r2 & 3u32 == 0u32
            &&& r2 & (v2 & !3u32) == 0u32
            &&& r2 & claimed == 0u32
            &&& (v2 & !3u32) & claimed == 0u32
            &&& send & !3u32 == r2 | (v2 & !3u32) | claimed
        }),
        ({
            let v2 = recv & 3u32;
            let k2 = claimed | (recv & !3u32);
            &&& v2 & !3u32 == 0u32
            &&& k2 & 3u32 == 0u32
            &&& reserved & (v2 & !3u32) == 0u32
            &&& reserved & k2 == 0u32
            &&& (v2 & !3u32) & k2 == 0u32
            &&& send & !3u32 == reserved | (v2 & !3u32) | k2
        }),
        c & !claimed == 0u32 ==> ({
            let s2 = send & (!c & !3u32);
            let k2 = claimed & !c;
            &&& k2 & 3u32 == 0u32
            &&& reserved & k2 == 0u32
            &&& (recv & !3u32) & k2 == 0u32
            &&& s2 & !3u32 == reserved | (recv & !3u32) | k2
        }),
        raise & !3u32 == 0u32 && lower & !3u32 == 0u32 ==> ({
            let s2 = send | raise;
            let v2 = recv & !lower;
            &&& reserved & (v2 & !3u32) == 0u32
            &&& (v2 & !3u32) & claimed == 0u32
            &&& s2 & !3u32 == reserved | (v2 & !3u32) | claimed
        }),
{
}

/// No slot of a new bag is held by anyone.
pub proof fn law_idle_bag_consistent()
    ensures
        slots_consistent(idle_bag()),
{
    assert(0u32 & 3u32 == 0u32 && 0u32 & (3u32 & !3u32) == 0u32 && 0u32 & 0u32 == 0u32 && (3u32
        & !3u32) & 0u32 == 0u32 && 0u32 & !3u32 == 0u32 | (3u32 & !3u32) | 0u32) by (bit_vector);
}

/// Every step of the bag keeps each slot held by exactly one party: a
/// sender only ever gets slots nobody holds, a receiver claims exactly the
/// committed slots, which no sender still holds, and releasing or flag
/// changes leave the other parties' slots alone.
pub proof fn law_steps_keep_slots_consistent(w: BagWords, request: u32, x: u32, c: u32, raise: u32, lower: u32)
    requires
        slots_consistent(w),
    ensures
        request & STATUS_ALL == 0 ==> slots_consistent(after_request(w, request)),
        x & !w.reserved == 0 ==> slots_consistent(after_commit(w, x)),
        slots_consistent(after_claim(w)),
        c & !w.claimed == 0 ==> slots_consistent(after_release(w, c)),
        raise & !STATUS_ALL == 0 && lower & !STATUS_ALL == 0 ==> slots_consistent(after_flags(w, raise, lower)),
        committed_slots(after_claim(w)) == 0,
{
    lemma_slot_steps(w.send, w.recv, w.reserved, w.claimed, request, x, c, raise, lower);
}

/// The word a sender ORs into the receive word to commit the slots `x`:
/// those slots, with the status bits, stored inverted, left as they are.
pub fn commit_word(x: u32) -> (m: u32)
    ensures
        m == x | STATUS_ALL,
        forall|w: BagWords| #[trigger] after_commit(w, x).recv == w.recv | m,
{
    x | STATUS_ALL
}

/// The word a receiver ANDs into the receive word to claim every committed
/// slot at once: only the status bits stay.
pub fn claim_word() -> (m: u32)
    ensures
        m == STATUS_ALL,
        forall|w: BagWords| #[trigger] after_claim(w).recv == w.recv & m,
{
    STATUS_ALL
}

/// The word a receiver ANDs into the send word to release the slots `c` it
/// claimed: those slots and the status bits are cleared, every other slot
/// stays.
pub fn release_word(c: u32) -> (m: u32)
    ensures
        m == !c & !STATUS_ALL,
        forall|w: BagWords| #[trigger] after_release(w, c).send == w.send & m,
{
    !c & !STATUS_ALL
}

/// The sleep flag of the send word is up.
pub fn sender_was_sleeping(prev: u32) -> (r: bool)
    ensures
        r == (prev & SLEEPING != 0),
    opens_invariants none
    no_unwind
{
    prev & SLEEPING != 0
}

/// The sleep flag of the receive word, stored inverted, is up.
pub fn receiver_was_sleeping(prev: u32) -> (r: bool)
    ensures
        r == (prev & SLEEPING == 0),
    opens_invariants none
    no_unwind
{
    let status = !prev;
    proof {
        lemma_inverted_status(prev);
    }
    status & SLEEPING != 0
}

/// One slot of the bag, which knows its own position in it.
#[verifier::reject_recursive_types(T)]
struct Slot<T> {
    index: usize,
    value: Mutex<Option<T>>,
}

impl<T> Slot<T> {
    /// Empties the slot, handing back what it held and, as a ghost, the
    /// slot's position.
    fn take(&self) -> (r: (Option<T>, Ghost<usize>))
        ensures
            r.1@ == self.index,
    {
        (mutex_replace(&self.value, None), Ghost(self.index))
    }

    /// Puts `value` in the slot, handing back, as a ghost, the slot's
    /// position.
    fn put(&self, value: T) -> (r: Ghost<usize>)
        ensures
            r@ == self.index,
    {
        let _ = mutex_replace(&self.value, Some(value));
        Ghost(self.index)
    }
}

/// The slots below `n` that `mask` covers, in increasing order: what
/// `drain_mask` lists.
pub open spec fn lists_slots(slots: Seq<usize>, mask: u32, n: u32) -> bool {
    &&& forall|k: int| 0 <= k < slots.len() ==> #[trigger] slots[k] < n && top_bit_u32(mask, slots[k] as u32)
    &&& forall|k1: int, k2: int| 0 <= k1 < k2 < slots.len() ==> #[trigger] slots[k1] < #[trigger] slots[k2]
    &&& forall|s: u32| s < n ==> (top_bit_u32(mask, s) <==> #[trigger] slots.contains(s as usize))
}

/// The first `k` entries of `s`.
pub open spec fn first_k(s: Seq<usize>, k: usize) -> Seq<usize> {
    s.take(k as int)
}

/// Growing a prefix by one entry, and the prefix of the whole sequence.
proof fn lemma_first_k(s: Seq<usize>, k: usize)
    requires
        s.len() <= usize::MAX,
    ensures
        first_k(s, 0) == Seq::<usize>::empty(),
        k < s.len() ==> first_k(s, (k + 1) as usize) == first_k(s, k).push(s[k as int]),
        k == s.len() ==> first_k(s, k) == s,
{
    assert(s.take(0) =~= Seq::<usize>::empty());
    if k < s.len() {
        assert(s.take(k + 1) =~= s.take(k as int).push(s[k as int]));
    }
    if k == s.len() {
        assert(s.take(k as int) =~= s);
    }
}

/// The receive word `w`, whose status bits are stored inverted, shows
/// nothing committed and every sender gone.
pub open spec fn senders_gone_and_empty(w: u32) -> bool {
    w & !STATUS_ALL == 0 && w & COUNTERPARTY_DEAD == 0
}

/// A send step reports the disconnection exactly when the word it met
/// carries the receivers-gone flag; with a receiver alive, a bag whose every
/// slot is taken answers `Full`.
pub proof fn law_send_disconnects_only_when_receivers_gone(prev: u32, request: u32)
    ensures
        (reserve_step_spec(prev, request) == ReserveStep::Disconnected) <==> prev & COUNTERPARTY_DEAD != 0,
        prev & COUNTERPARTY_DEAD == 0 && prev | STATUS_ALL == u32::MAX ==> reserve_step_spec(prev, request)
            == ReserveStep::Full,
{
}

/// A claim step reports the disconnection exactly when the receive word
/// shows nothing committed and every sender gone; a committed slot is always
/// claimed, whether or not the senders are gone.
pub proof fn law_claim_disconnects_only_when_senders_gone_and_empty(prev: u32)
    ensures
        (claim_step_spec(prev) == ClaimStep::Disconnected) <==> senders_gone_and_empty(prev),
        prev & !STATUS_ALL != 0 ==> claim_step_spec(prev) == ClaimStep::Claimed(prev & !STATUS_ALL),
{
}

/// The state shared by the senders and receivers of a bag.
#[verifier::reject_recursive_types(T)]
struct Inner<T> {
    /// Reserved slots, one bit each from the most significant bit, then the
    /// receivers-gone and sleeping flags.
    send: AtomicU32,
    /// Committed slots, then the senders-gone and sleeping flags, both
    /// stored inverted.
    recv: AtomicU32,
    num_senders: AtomicU32,
    num_receivers: AtomicU32,
    bag: Vec<Slot<T>>,
}

/// The sending side of a multi-producer multi-consumer bag of 30 slots.
#[verifier::reject_recursive_types(T)]
pub struct Sender<T> {
    inner: Arc<Inner<T>>,
    bias: u32,
}

/// The receiving side of a multi-producer multi-consumer bag of 30 slots.
#[verifier::reject_recursive_types(T)]
pub struct Receiver<T> {
    inner: Arc<Inner<T>>,
}

impl<T> Sender<T> {
    #[verifier::type_invariant]
    spec fn well_formed(self) -> bool {
        &&& self.inner.bag@.len() == NUM_SLOTS
        &&& forall|i: int| 0 <= i < NUM_SLOTS ==> #[trigger] self.inner.bag@[i].index == i
        &&& self.bias < NUM_SLOTS
    }

    /// The slot this sender starts its requests at.
    pub closed spec fn spec_bias(self) -> u32 {
        self.bias
    }

    /// This sender puts its values in the bag that `receiver` takes from.
    pub closed spec fn sends_to(&self, receiver: &Receiver<T>) -> bool {
        self.inner == receiver.inner
    }
}

impl<T> Receiver<T> {
    #[verifier::type_invariant]
    spec fn well_formed(self) -> bool {
        &&& self.inner.bag@.len() == NUM_SLOTS
        &&& forall|i: int| 0 <= i < NUM_SLOTS ==> #[trigger] self.inner.bag@[i].index == i
    }
}

/// A new bag with one sender, whose bias is slot 0, and one receiver.
pub fn mpmc<T>() -> (r: (Sender<T>, Receiver<T>))
    ensures
        r.0.spec_bias() == 0,
        r.0.sends_to(&r.1),
{
    let mut bag: Vec<Slot<T>> = Vec::new();
    let mut i: usize = 0;
    while i < 30
        invariant
            i <= NUM_SLOTS,
            bag@.len() == i,
            forall|j: int| 0 <= j < i ==> #[trigger] bag@[j].index == j,
        decreases 30 - i,
    {
        bag.push(Slot { index: i, value: mutex_new(None) });
        i = i + 1;
    }
    let inner = Arc::new(
        Inner {
            send: AtomicU32::new(0),
            recv: AtomicU32::new(STATUS_ALL),
            num_senders: AtomicU32::new(1),
            num_receivers: AtomicU32::new(1),
            bag,
        },
    );
    (Sender { inner: arc_clone(&inner), bias: 0 }, Receiver { inner })
}

/// How a blocked sender's wait ended.
enum SenderWait {
    Retry,
    Disconnected,
}

/// How an attempt to send failed.
enum SendFailure {
    Full,
    Disconnected,
}

impl<T> Sender<T> {
    /// Sends as many of the items of `data` as there are free slots for,
    /// without blocking. Succeeds when at least one item went out, or when
    /// there was nothing to send; the items that did not go out stay in
    /// `data`. Fails with `Full`, handing `data` back untouched, when every
    /// slot was taken, and with `Disconnected` when every receiver is gone.
    /// The attempt, and which of these results each send word it saw
    /// gives, is `try_send_`.
    pub fn try_send<B: SendBuffer<T>>(&self, data: B) -> (r: Result<(), TrySendError<B>>)
        ensures
            data.spec_len() == 0 ==> r is Ok,
            r matches Err(TrySendError::Full(b)) ==> b.spec_same_as(&data),
            r matches Err(TrySendError::Disconnected(b)) ==> b.spec_same_as(&data),
    {
        self.attempt_send(data).0
    }

    /// One non-blocking send of `data`, handing back, as ghosts, the send
    /// word its last request met and that request. With items to send, it
    /// succeeds only when the step of that word reserved slots, fails with
    /// `Disconnected` exactly when the step says every receiver is gone, and
    /// with `Full` only when the step says every slot is taken (or after
    /// 2^64 requests that all met taken slots, which no run reaches).
    fn attempt_send<B: SendBuffer<T>>(&self, data: B) -> (r: (
        Result<(), TrySendError<B>>,
        Ghost<u32>,
        Ghost<u32>,
    ))
        ensures
            data.spec_len() == 0 ==> r.0 is Ok,
            r.0 matches Err(TrySendError::Full(b)) ==> b.spec_same_as(&data) && (reserve_step_spec(
                r.1@,
                r.2@,
            ) == ReserveStep::Full || reserve_step_spec(r.1@, r.2@) == ReserveStep::Retry),
            r.0 matches Err(TrySendError::Disconnected(b)) ==> b.spec_same_as(&data)
                && reserve_step_spec(r.1@, r.2@) == ReserveStep::Disconnected,
            data.spec_len() >= 1 && reserve_step_spec(r.1@, r.2@) == ReserveStep::Disconnected
                ==> r.0 matches Err(TrySendError::Disconnected(_)),
            data.spec_len() >= 1 && r.0 is Ok ==> reserve_step_spec(r.1@, r.2@) is Reserved,
    {
        let (items, mut buffer) = data.available_items();
        let ghost container = buffer;
        if items == 0 {
            return (Ok(()), Ghost(0), Ghost(0));
        }
        match self.try_send_(&mut buffer, items) {
            Ok((prev, request, _, _)) => (Ok(()), Ghost(prev), Ghost(request)),
            Err((SendFailure::Full, prev, request)) => (
                Err(TrySendError::Full(buffer.remit())),
                Ghost(prev),
                Ghost(request),
            ),
            Err((SendFailure::Disconnected, prev, request)) => (
                Err(TrySendError::Disconnected(buffer.remit())),
                Ghost(prev),
                Ghost(request),
            ),
        }
    }

    /// One attempt to send from `buffer`, which holds `items` items. It asks
    /// for slots, again with the free ones while the slots it asked for were
    /// taken, and hands back the send word `prev` its last request met and
    /// that request. On `Ok` the reservation `x` of that step is returned:
    /// between one and `min(items, 30)` slots, one item taken from `buffer`
    /// into each. On failure `buffer` is untouched: `Disconnected` exactly
    /// when the step says every receiver is gone, `Full` when it says every
    /// slot is taken, or after 2^64 requests that all met taken slots, which
    /// no run reaches.
    fn try_send_<C: SendBufferContainer<T>>(&self, buffer: &mut C, items: usize) -> (r: Result<
        (u32, u32, u32, Ghost<Seq<usize>>),
        (SendFailure, u32, u32),
    >)
        requires
            items >= 1,
            old(buffer).remaining() == items,
        ensures
            r matches Ok((prev, request, x, written)) ==> {
                &&& reserve_step_spec(prev, request) == ReserveStep::Reserved(x)
                &&& 1 <= popcount_u32(x) <= items
                &&& popcount_u32(x) <= NUM_SLOTS
                &&& final(buffer).remaining() == items - popcount_u32(x)
                &&& lists_slots(written@, x, 30)
                &&& written@.len() == popcount_u32(x)
            },
            r matches Err((f, prev, request)) ==> {
                &&& *final(buffer) == *old(buffer)
                &&& (f is Disconnected <==> reserve_step_spec(prev, request) == ReserveStep::Disconnected)
                &&& (f is Full ==> reserve_step_spec(prev, request) == ReserveStep::Full
                    || reserve_step_spec(prev, request) == ReserveStep::Retry)
            },
    {
        proof {
            use_type_invariant(self);
        }
        let mut request = compute_request_mask(items, self.bias);
        let mut reserved: u32 = 0;
        let mut seen: u32 = 0;
        let mut asked: u32 = 0;
        let mut attempts: u64 = 0;
        loop
            invariant_except_break
                reserved == 0,
            invariant
                items >= 1,
                *buffer == *old(buffer),
                buffer.remaining() == items,
                self.bias < NUM_SLOTS,
                request & STATUS_ALL == 0,
                popcount_u32(request) <= items,
            ensures
                *buffer == *old(buffer),
                buffer.remaining() == items,
                reserve_step_spec(seen, asked) == ReserveStep::Reserved(reserved),
                reserved & STATUS_ALL == 0,
                reserved != 0,
                popcount_u32(reserved) <= items,
            decreases u64::MAX - attempts,
        {
            let prev = self.inner.send.fetch_or(request, Ordering::Relaxed);
            match reserve_step(prev, request) {
                ReserveStep::Disconnected => {
                    return Err((SendFailure::Disconnected, prev, request));
                },
                ReserveStep::Full => {
                    return Err((SendFailure::Full, prev, request));
                },
                ReserveStep::Reserved(x) => {
                    reserved = x;
                    seen = prev;
                    asked = request;
                    proof {
                        law_reservations_are_disjoint(prev, request);
                    }
                    break;
                },
                ReserveStep::Retry => {
                    if attempts == u64::MAX {
                        return Err((SendFailure::Full, prev, request));
                    }
                    request = retry_request(prev, items, self.bias);
                },
            }
            attempts = attempts + 1;
            core::hint::spin_loop();
        }
        let indices = drain_mask(reserved, 30);
        proof {
            assert forall|s: u32| 30 <= s < 32 implies !#[trigger] top_bit_u32(reserved, s) by {
                lemma_status_slots(reserved);
            }
            lemma_no_slots(reserved);
            let s = choose|s: u32| s < 32 && #[trigger] top_bit_u32(reserved, s);
            lemma_popcount_pos(reserved, s);
        }
        let mut written: Ghost<Seq<usize>> = Ghost(Seq::empty());
        proof {
            lemma_first_k(indices@, 0);
        }
        let mut k: usize = 0;
        while k < indices.len()
            invariant
                k <= indices@.len(),
                indices@.len() == popcount_u32(reserved),
                indices@.len() <= 30,
                popcount_u32(reserved) <= items,
                buffer.remaining() == items - k,
                forall|j: int| 0 <= j < indices@.len() ==> #[trigger] indices@[j] < 30,
                self.inner.bag@.len() == NUM_SLOTS,
                forall|i: int| 0 <= i < NUM_SLOTS ==> #[trigger] self.inner.bag@[i].index == i,
                written@ == first_k(indices@, k),
            decreases indices@.len() - k,
        {
            let value = buffer.take();
            let Ghost(slot) = self.inner.bag[indices[k]].put(value);
            proof {
                lemma_first_k(indices@, k);
                written@ = written@.push(slot);
            }
            k = k + 1;
        }
        proof {
            lemma_first_k(indices@, k);
        }
        let prev_recv = self.inner.recv.fetch_or(commit_word(reserved), Ordering::Release);
        if receiver_was_sleeping(prev_recv) {
            atomic_wake(&self.inner.recv, 1);
        }
        Ok((seen, asked, reserved, written))
    }

    /// Waits, spinning then sleeping, until the send word shows a free slot
    /// or that every receiver is gone.
    fn wait_for_room(&self) -> (r: (SenderWait, Ghost<u32>))
        ensures
            r.0 is Disconnected ==> r.1@ & COUNTERPARTY_DEAD != 0,
    {
        let mut spin: u32 = 32;
        loop
            decreases spin,
        {
            core::hint::spin_loop();
            let word = if spin == 0 {
                let raw = self.inner.send.fetch_or(SLEEPING, Ordering::Relaxed);
                let w = raw | SLEEPING;
                assert(w & 2u32 != 0u32) by (bit_vector)
                    requires
                        w == raw | 2u32,
                ;
                w
            } else {
                self.inner.send.load(Ordering::Relaxed)
            };
            match sender_wait_step(word) {
                WaitStep::Retry => {
                    return (SenderWait::Retry, Ghost(word));
                },
                WaitStep::Disconnected => {
                    return (SenderWait::Disconnected, Ghost(word));
                },
                WaitStep::Sleep => {
                    atomic_sleep(&self.inner.send, word);
                    self.inner.send.fetch_or(SLEEPING, Ordering::Relaxed);
                    return (SenderWait::Retry, Ghost(word));
                },
                WaitStep::Spin => {
                    spin = spin - 1;
                },
            }
        }
    }

    /// Sends at least one of the items of `data`, blocking while every slot
    /// is taken. Fails, handing `data` back, when every receiver is gone.
    /// A wait of 2^64 rounds, which no run reaches, also ends in that failure.
    /// The rounds, and the word each failure rests on, are `send_`.
    pub fn send<B: SendBuffer<T>>(&self, data: B) -> (r: Result<(), SendError<B>>)
        ensures
            data.spec_len() == 0 ==> r is Ok,
            r matches Err(SendError(b)) ==> b.spec_same_as(&data),
    {
        self.send_(data).0
    }

    /// Sends at least one of the items of `data`, waiting for room while
    /// every slot is taken, and hands back, as ghosts, the send word that
    /// decided the last round and the number of rounds. It fails only when
    /// that word carries the receivers-gone flag, or after 2^64 rounds,
    /// which no run reaches; a full bag alone never makes it fail.
    fn send_<B: SendBuffer<T>>(&self, data: B) -> (r: (Result<(), SendError<B>>, Ghost<u32>, Ghost<u64>))
        ensures
            data.spec_len() == 0 ==> r.0 is Ok,
            r.0 matches Err(SendError(b)) ==> b.spec_same_as(&data),
            r.0 is Err ==> r.1@ & COUNTERPARTY_DEAD != 0 || r.2@ == u64::MAX,
    {
        let ghost offered = data;
        let mut pending = data;
        proof {
            B::lemma_same_as_reflexive(&pending);
        }
        let mut rounds: u64 = 0;
        while rounds < u64::MAX
            invariant
                offered == data,
                pending.spec_same_as(&offered),
                offered.spec_len() == 0 ==> rounds == 0,
                rounds == 0 ==> pending == offered,
            decreases u64::MAX - rounds,
        {
            let (attempt, Ghost(prev), Ghost(request)) = self.attempt_send(pending);
            match attempt {
                Ok(()) => {
                    return (Ok(()), Ghost(prev), Ghost(rounds));
                },
                Err(TrySendError::Disconnected(restored)) => {
                    proof {
                        B::lemma_same_as_transitive(&restored, &pending, &offered);
                    }
                    return (Err(SendError(restored)), Ghost(prev), Ghost(rounds));
                },
                Err(TrySendError::Full(restored)) => {
                    proof {
                        B::lemma_same_as_transitive(&restored, &pending, &offered);
                    }
                    pending = restored;
                    let (waited, Ghost(word)) = self.wait_for_room();
                    match waited {
                        SenderWait::Retry => {},
                        SenderWait::Disconnected => {
                            return (Err(SendError(pending)), Ghost(word), Ghost(rounds));
                        },
                    }
                },
            }
            rounds = rounds + 1;
        }
        (Err(SendError(pending)), Ghost(0), Ghost(rounds))
    }
}

/// How a blocked receiver's wait ended.
enum ReceiverWait {
    Retry,
    Disconnected,
}

impl<T> Receiver<T> {
    /// Takes every value that has been committed, without blocking: at least
    /// one and at most one per slot. Fails with `Empty` when nothing was
    /// committed (or the claimed slots held nothing, which no run of the
    /// protocol reaches), and with `Disconnected` when nothing was committed
    /// and every sender is gone. The attempt, and which of these results
    /// each receive word it saw gives, is `try_recv_`.
    pub fn try_recv(&self) -> (r: Result<Vec<T>, TryRecvError>)
        ensures
            r matches Ok(values) ==> 1 <= values@.len() <= NUM_SLOTS,
    {
        match self.try_recv_().0 {
            Ok((values, _)) => Ok(values),
            Err((e, _)) => Err(e),
        }
    }

    /// One attempt to claim every committed slot, handing back the receive
    /// word `prev` the claim met and, as a ghost, the slots it emptied.
    /// Values come only when the claim step of that word claims slots: then
    /// every claimed slot, and no other, is emptied into the result, at least
    /// one value and at most one per claimed slot. `Disconnected` comes
    /// exactly when the step says nothing was committed and every sender is
    /// gone; `Empty` when it says nothing was committed (no slot is touched),
    /// or when the claimed slots, all emptied, held nothing, which no run of
    /// the protocol reaches.
    fn try_recv_(&self) -> (r: (Result<(Vec<T>, u32), (TryRecvError, u32)>, Ghost<Seq<usize>>))
        ensures
            r.0 matches Ok((values, prev)) ==> (claim_step_spec(prev) matches ClaimStep::Claimed(c)
                && 1 <= values@.len() <= popcount_u32(c) && values@.len() <= NUM_SLOTS
                && lists_slots(r.1@, c, 30) && values@.len() <= r.1@.len()),
            r.0 matches Err((e, prev)) ==> (e is Disconnected <==> claim_step_spec(prev)
                == ClaimStep::Disconnected),
            r.0 matches Err((TryRecvError::Empty, prev)) ==> ((claim_step_spec(prev) == ClaimStep::Empty
                && r.1@.len() == 0) || (claim_step_spec(prev) matches ClaimStep::Claimed(c) && lists_slots(r.1@, c, 30))),
            r.0 matches Err((TryRecvError::Disconnected, _)) ==> r.1@.len() == 0,
    {
        proof {
            use_type_invariant(self);
        }
        let prev = self.inner.recv.fetch_and(claim_word(), Ordering::Acquire);
        let claimed = match claim_step(prev) {
            ClaimStep::Disconnected => {
                return (Err((TryRecvError::Disconnected, prev)), Ghost(Seq::empty()));
            },
            ClaimStep::Empty => {
                return (Err((TryRecvError::Empty, prev)), Ghost(Seq::empty()));
            },
            ClaimStep::Claimed(c) => c,
        };
        let indices = drain_mask(claimed, 30);
        let mut values: Vec<T> = Vec::new();
        let mut emptied: Ghost<Seq<usize>> = Ghost(Seq::empty());
        proof {
            lemma_first_k(indices@, 0);
        }
        let mut k: usize = 0;
        while k < indices.len()
            invariant
                k <= indices@.len(),
                indices@.len() <= 30,
                indices@.len() <= popcount_u32(claimed),
                values@.len() <= k,
                forall|j: int| 0 <= j < indices@.len() ==> #[trigger] indices@[j] < 30,
                self.inner.bag@.len() == NUM_SLOTS,
                forall|i: int| 0 <= i < NUM_SLOTS ==> #[trigger] self.inner.bag@[i].index == i,
                emptied@ == first_k(indices@, k),
            decreases indices@.len() - k,
        {
            let (taken, Ghost(slot)) = self.inner.bag[indices[k]].take();
            proof {
                lemma_first_k(indices@, k);
                emptied@ = emptied@.push(slot);
            }
            match taken {
                Some(value) => values.push(value),
                None => {},
            }
            k = k + 1;
        }
        proof {
            lemma_first_k(indices@, k);
        }
        let prev_send = self.inner.send.fetch_and(release_word(claimed), Ordering::Relaxed);
        if sender_was_sleeping(prev_send) {
            atomic_wake(&self.inner.send, 1);
        }
        if values.len() == 0 {
            return (Err((TryRecvError::Empty, prev)), emptied);
        }
        (Ok((values, prev)), emptied)
    }

    /// Waits, spinning then sleeping, until the receive word shows a
    /// committed slot or that every sender is gone.
    fn wait_for_items(&self) -> (r: (ReceiverWait, Ghost<u32>))
        ensures
            r.0 is Disconnected ==> senders_gone_and_empty(r.1@),
    {
        let mut spin: u32 = 32;
        loop
            decreases spin,
        {
            core::hint::spin_loop();
            let word = if spin == 0 {
                let raw = self.inner.recv.fetch_and(!SLEEPING, Ordering::Relaxed);
                let w = raw & !SLEEPING;
                assert(w & 2u32 == 0u32) by (bit_vector)
                    requires
                        w == raw & !2u32,
                ;
                w
            } else {
                self.inner.recv.load(Ordering::Relaxed)
            };
            match receiver_wait_step(word) {
                WaitStep::Retry => {
                    return (ReceiverWait::Retry, Ghost(word));
                },
                WaitStep::Disconnected => {
                    return (ReceiverWait::Disconnected, Ghost(word));
                },
                WaitStep::Sleep => {
                    atomic_sleep(&self.inner.recv, word);
                    self.inner.recv.fetch_and(!SLEEPING, Ordering::Relaxed);
                    return (ReceiverWait::Retry, Ghost(word));
                },
                WaitStep::Spin => {
                    spin = spin - 1;
                },
            }
        }
    }

    /// Takes every value that has been committed, blocking while there is
    /// none. Fails when nothing is committed and every sender is gone. A wait
    /// of 2^64 rounds, which no run reaches, also ends in that failure.
    pub fn recv(&self) -> (r: Result<Vec<T>, RecvError>)
        ensures
            r matches Ok(values) ==> 1 <= values@.len() <= NUM_SLOTS,
    {
        self.recv_().0
    }

    /// Takes every committed value, waiting while there is none, and hands
    /// back, as ghosts, the receive word that decided the last round and the
    /// number of rounds. It fails only when that word shows nothing committed
    /// and every sender gone, or after 2^64 rounds, which no run reaches; an
    /// empty bag with a sender alive only makes it wait.
    fn recv_(&self) -> (r: (Result<Vec<T>, RecvError>, Ghost<u32>, Ghost<u64>))
        ensures
            r.0 matches Ok(values) ==> 1 <= values@.len() <= NUM_SLOTS,
            r.0 is Err ==> senders_gone_and_empty(r.1@) || r.2@ == u64::MAX,
    {
        let mut rounds: u64 = 0;
        while rounds < u64::MAX
            decreases u64::MAX - rounds,
        {
            let (attempt, _) = self.try_recv_();
            match attempt {
                Ok((values, _)) => {
                    return (Ok(values), Ghost(0), Ghost(rounds));
                },
                Err((TryRecvError::Disconnected, prev)) => {
                    return (Err(RecvError), Ghost(prev), Ghost(rounds));
                },
                Err((TryRecvError::Empty, _)) => {
                    let (waited, Ghost(word)) = self.wait_for_items();
                    match waited {
                        ReceiverWait::Retry => {},
                        ReceiverWait::Disconnected => {
                            return (Err(RecvError), Ghost(word), Ghost(rounds));
                        },
                    }
                },
            }
            rounds = rounds + 1;
        }
        (Err(RecvError), Ghost(0), Ghost(rounds))
    }
}

impl<T> Clone for Sender<T> {
    /// Another sender on the same bag. Its bias cycles through the slots in
    /// steps of 7 as senders are made.
    fn clone(&self) -> (r: Self)
        ensures
            r.spec_bias() < NUM_SLOTS,
            forall|receiver: &Receiver<T>| #[trigger] r.sends_to(receiver) == self.sends_to(receiver),
    {
        proof {
            use_type_invariant(self);
        }
        let prev_senders = self.inner.num_senders.fetch_add(1, Ordering::Relaxed);
        let bias = prev_senders.wrapping_mul(7) % NUM_SLOTS;
        Sender { inner: arc_clone(&self.inner), bias }
    }
}

impl<T> Clone for Receiver<T> {
    /// Another receiver on the same bag.
    fn clone(&self) -> (r: Self)
        ensures
            forall|sender: &Sender<T>| #[trigger] sender.sends_to(&r) == sender.sends_to(self),
    {
        proof {
            use_type_invariant(self);
        }
        self.inner.num_receivers.fetch_add(1, Ordering::Relaxed);
        Receiver { inner: arc_clone(&self.inner) }
    }
}

impl<T> Drop for Sender<T> {
    /// The last sender to go raises the senders-gone flag and wakes every
    /// sleeping receiver.
    fn drop(&mut self)
        opens_invariants none
        no_unwind
    {
        if atomic_u32_fetch_sub(&self.inner.num_senders, 1, Ordering::Relaxed) > 1 {
            return;
        }
        let prev = atomic_u32_fetch_and(&self.inner.recv, !COUNTERPARTY_DEAD, Ordering::Relaxed);
        if receiver_was_sleeping(prev) {
            atomic_wake(&self.inner.recv, u32::MAX);
        }
    }
}

impl<T> Drop for Receiver<T> {
    /// The last receiver to go raises the receivers-gone flag and wakes every
    /// sleeping sender.
    fn drop(&mut self)
        opens_invariants none
        no_unwind
    {
        if atomic_u32_fetch_sub(&self.inner.num_receivers, 1, Ordering::Relaxed) > 1 {
            return;
        }
        let prev = atomic_u32_fetch_or(&self.inner.send, COUNTERPARTY_DEAD, Ordering::Relaxed);
        if sender_was_sleeping(prev) {
            atomic_wake(&self.inner.send, u32::MAX);
        }
    }
}

} // verus!
