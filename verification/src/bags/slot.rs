use vstd::prelude::*;

use std::sync::atomic::{AtomicU32, AtomicU64, Ordering};
use std::sync::{Arc, Mutex};

use crate::bags::error::{RecvError, SendError, TryRecvError, TrySendError};
use crate::sync::{
    arc_clone, atomic_sleep, atomic_u32_fetch_add, atomic_u32_fetch_or, atomic_u32_fetch_sub,
    atomic_u64_swap, atomic_wake, mutex_new, mutex_replace,
};

verus! {

/// The send-word flag telling that the receiver is gone.
pub const RECEIVER_DEAD: u64 = 0x8000_0000_0000_0000;

/// The send-word flag telling that a sender sleeps.
pub const SEND_SLEEPING: u64 = 0x4000_0000_0000_0000;

/// Both send-word flags.
pub const SEND_FLAGS: u64 = 0xc000_0000_0000_0000;

/// The reservation count past which the count could wrap into the flags.
pub const ABORT: u64 = 0x6000_0000_0000_0000;

/// The receive-word flag telling that a value is committed to the slot.
pub const COMMIT: u32 = 1;

/// The receive-word flag telling that the receiver sleeps.
pub const RECV_SLEEPING: u32 = 2;

/// The receive-word flag telling that every sender is gone.
pub const SENDER_DEAD: u32 = 4;

/// The send word of a slot: the receiver-gone and sleeping flags on top, a
/// count of reservation attempts below them.
#[derive(Copy, Clone, PartialEq, Eq, Structural, Debug)]
pub struct SendStatus(pub u64);

impl SendStatus {
    /// The reservation attempts counted in the word: everything but the flags.
    pub fn reservations(self) -> (r: u64)
        ensures
            r == self.0 & !SEND_FLAGS,
            r < SEND_SLEEPING,
    {
        let w = self.0;
        let r = w & !SEND_FLAGS;
        assert(r < 0x4000_0000_0000_0000u64) by (bit_vector)
            requires
                r == w & !0xc000_0000_0000_0000u64,
        ;
        r
    }
}

/// What a sender does after counting itself in the send word `prev`.
#[derive(Copy, Clone, PartialEq, Eq, Structural, Debug)]
pub enum SlotSendStep {
    /// The receiver is gone.
    Disconnected,
    /// So many attempts were counted that the count could reach the flags.
    OutOfAddressSpace,
    /// Someone else holds the slot.
    Full,
    /// The slot is ours: write the value and commit it.
    Write,
}

/// What a receiver does after reading the receive word `status`.
#[derive(Copy, Clone, PartialEq, Eq, Structural, Debug)]
pub enum SlotRecvStep {
    /// Nothing is committed and every sender is gone.
    Disconnected,
    /// Nothing is committed.
    Empty,
    /// A value is committed: take it.
    Take,
}

/// The step a sender takes on the send word `prev`.
pub open spec fn send_step_spec(prev: u64) -> SlotSendStep {
    if prev & RECEIVER_DEAD != 0 {
        SlotSendStep::Disconnected
    } else if prev & !SEND_FLAGS >= ABORT {
        SlotSendStep::OutOfAddressSpace
    } else if prev & !SEND_FLAGS > 0 {
        SlotSendStep::Full
    } else {
        SlotSendStep::Write
    }
}

/// The step a receiver takes on the receive word `status`.
pub open spec fn recv_step_spec(status: u32) -> SlotRecvStep {
    if status & COMMIT == 0 {
        if status & SENDER_DEAD != 0 {
            SlotRecvStep::Disconnected
        } else {
            SlotRecvStep::Empty
        }
    } else {
        SlotRecvStep::Take
    }
}

/// Decides what a sender does once it counted itself in the send word.
pub fn send_step(prev: u64) -> (r: SlotSendStep)
    ensures
        r == send_step_spec(prev),
{
    if prev & RECEIVER_DEAD != 0 {
        return SlotSendStep::Disconnected;
    }
    let reservations = SendStatus(prev).reservations();
    if reservations >= ABORT {
        return SlotSendStep::OutOfAddressSpace;
    }
    if reservations > 0 {
        return SlotSendStep::Full;
    }
    SlotSendStep::Write
}

/// Decides what a receiver does on the receive word.
pub fn recv_step(status: u32) -> (r: SlotRecvStep)
    ensures
        r == recv_step_spec(status),
{
    if status & COMMIT == 0 {
        if status & SENDER_DEAD != 0 {
            return SlotRecvStep::Disconnected;
        }
        return SlotRecvStep::Empty;
    }
    SlotRecvStep::Take
}

/// The receive-word sleep flag is up in `prev`.
pub fn receiver_was_sleeping(prev: u32) -> (r: bool)
    ensures
        r == (prev & RECV_SLEEPING != 0),
    opens_invariants none
    no_unwind
{
    prev & RECV_SLEEPING != 0
}

/// The send-word sleep flag is up in `prev`.
pub fn sender_was_sleeping(prev: u64) -> (r: bool)
    ensures
        r == (prev & SEND_SLEEPING != 0),
    opens_invariants none
    no_unwind
{
    prev & SEND_SLEEPING != 0
}

/// The attempts counted in the send word never reach the abort threshold:
/// they would run into the flags first.
pub proof fn law_attempts_never_reach_abort(prev: u64)
    ensures
        send_step_spec(prev) != SlotSendStep::OutOfAddressSpace,
{
    assert(prev & !0xc000_0000_0000_0000u64 < 0x6000_0000_0000_0000u64) by (bit_vector);
}

/// On an idle slot, whose words are both zero, the first sender writes;
/// a second sender, counted before the value is received, is refused; the
/// receiver takes the committed value; afterwards the receive word is idle
/// again and the receiver finds nothing more.
pub proof fn law_slot_idle_round_trip()
    ensures
        send_step_spec(0) == SlotSendStep::Write,
        send_step_spec(1) == SlotSendStep::Full,
        recv_step_spec(COMMIT) == SlotRecvStep::Take,
        COMMIT & SENDER_DEAD == 0,
        recv_step_spec(0) == SlotRecvStep::Empty,
{
    assert(0u64 & 0x8000_0000_0000_0000u64 == 0u64 && 0u64 & !0xc000_0000_0000_0000u64 == 0u64
        && 1u64 & 0x8000_0000_0000_0000u64 == 0u64 && 1u64 & !0xc000_0000_0000_0000u64 == 1u64
        && 1u32 & 1u32 != 0u32 && 1u32 & 4u32 == 0u32 && 0u32 & 1u32 == 0u32 && 0u32 & 4u32 == 0u32)
        by (bit_vector);
}

/// Once the receiver is gone, every send fails with the disconnection,
/// however many attempts were counted since.
pub proof fn law_slot_receiver_gone(count: u64)
    requires
        count < ABORT,
    ensures
        send_step_spec(RECEIVER_DEAD | count) == SlotSendStep::Disconnected,
{
    assert((0x8000_0000_0000_0000u64 | count) & 0x8000_0000_0000_0000u64 != 0u64) by (bit_vector);
}

/// A value committed before the last sender left is still received, and
/// only the receive after it reports the disconnection, whether or not the
/// receiver had gone to sleep.
pub proof fn law_slot_committed_before_sender_gone(receiver_sleeping: bool)
    ensures
        ({
            let word = COMMIT | SENDER_DEAD | if receiver_sleeping {
                RECV_SLEEPING
            } else {
                0u32
            };
            &&& recv_step_spec(word) == SlotRecvStep::Take
            &&& recv_step_spec(word & SENDER_DEAD) == SlotRecvStep::Disconnected
        }),
{
    let word = COMMIT | SENDER_DEAD | if receiver_sleeping {
        RECV_SLEEPING
    } else {
        0u32
    };
    assert(word & 1u32 != 0u32 && (word & 4u32) & 1u32 == 0u32 && (word & 4u32) & 4u32 != 0u32)
        by (bit_vector)
        requires
            word == 1u32 | 4u32 | 2u32 || word == 1u32 | 4u32 | 0u32,
    ;
}

/// The words of a slot channel together with who holds the slot: a sender
/// between winning the slot and committing its value, or the receiver
/// between taking the value and resetting the send word.
pub struct SlotWords {
    pub send: u64,
    pub recv: u32,
    pub writing: bool,
    pub taking: bool,
}

/// The attempts counted in the send word.
pub open spec fn attempts(w: SlotWords) -> u64 {
    w.send & !SEND_FLAGS
}

/// A value is committed to the slot.
pub open spec fn is_committed(w: SlotWords) -> bool {
    w.recv & COMMIT != 0
}

/// At most one party holds the slot: the writing sender, the committed
/// value, or the taking receiver; and while the receiver is there, attempts
/// are counted exactly while someone holds it.
pub open spec fn slot_consistent(w: SlotWords) -> bool {
    &&& !(w.writing && is_committed(w))
    &&& !(w.writing && w.taking)
    &&& !(is_committed(w) && w.taking)
    &&& w.send & RECEIVER_DEAD == 0 ==> (attempts(w) == 0 <==> !(w.writing || is_committed(w)
        || w.taking))
}

/// A new slot channel.
pub open spec fn idle_slot() -> SlotWords {
    SlotWords { send: 0, recv: 0, writing: false, taking: false }
}

/// A sender counts itself in, and writes when its step says so.
pub open spec fn after_attempt(w: SlotWords) -> SlotWords {
    SlotWords {
        send: (w.send + 1) as u64,
        writing: w.writing || send_step_spec(w.send) == SlotSendStep::Write,
        ..w
    }
}

/// The writing sender commits its value.
pub open spec fn after_commit(w: SlotWords) -> SlotWords {
    SlotWords { recv: COMMIT, writing: false, ..w }
}

/// The receiver takes the committed value.
pub open spec fn after_take(w: SlotWords) -> SlotWords {
    SlotWords { recv: w.recv & SENDER_DEAD, taking: true, ..w }
}

/// The receiver resets the send word, releasing the slot.
pub open spec fn after_reset(w: SlotWords) -> SlotWords {
    SlotWords { send: 0, taking: false, ..w }
}

/// The receiver leaves.
pub open spec fn after_receiver_gone(w: SlotWords) -> SlotWords {
    SlotWords { send: RECEIVER_DEAD, ..w }
}

/// The last sender leaves, or a party raises a sleep flag.
pub open spec fn after_flags(w: SlotWords, send_flag: u64, recv_flag: u32) -> SlotWords {
    SlotWords { send: w.send | send_flag, recv: w.recv | recv_flag, ..w }
}

/// The bookkeeping of each step, on plain words.
proof fn lemma_slot_words(send: u64, recv: u32, send_flag: u64, recv_flag: u32)
    by (bit_vector)
    ensures
        (send & !0xc000_0000_0000_0000u64) < 0x4000_0000_0000_0000u64 - 1 ==> ((((send + 1u64) as u64)
            & !0xc000_0000_0000_0000u64) == (send & !0xc000_0000_0000_0000u64) + 1 && (((send + 1u64) as u64)
            & 0x8000_0000_0000_0000u64) == (send & 0x8000_0000_0000_0000u64) && send < 0xffff_ffff_ffff_ffffu64),
        0x8000_0000_0000_0000u64 & 0x8000_0000_0000_0000u64 != 0u64,
        1u32 & 1u32 != 0u32,
        (recv & 4u32) & 1u32 == 0u32,
        0u64 & !0xc000_0000_0000_0000u64 == 0u64,
        0u64 & 0x8000_0000_0000_0000u64 == 0u64,
        0u32 & 1u32 == 0u32,
        send_flag & !0xc000_0000_0000_0000u64 == 0u64 && send_flag & 0x8000_0000_0000_0000u64 == 0u64
            ==> ((send | send_flag) & !0xc000_0000_0000_0000u64 == send & !0xc000_0000_0000_0000u64
            && (send | send_flag) & 0x8000_0000_0000_0000u64 == send & 0x8000_0000_0000_0000u64),
        recv_flag & 1u32 == 0u32 ==> (recv | recv_flag) & 1u32 == recv & 1u32,
{
}

/// No one holds the slot of a new channel.
pub proof fn law_idle_slot_consistent()
    ensures
        slot_consistent(idle_slot()),
{
    lemma_slot_words(0, 0, 0, 0);
}

/// Every step of the channel keeps the slot held by at most one party: a
/// sender wins the slot only when no one holds it, the receiver takes only
/// a committed value, and the slot is free again only once the receiver
/// resets the send word.
pub proof fn law_steps_keep_slot_consistent(w: SlotWords, send_flag: u64, recv_flag: u32)
    requires
        slot_consistent(w),
    ensures
        attempts(w) < SEND_SLEEPING - 1 ==> slot_consistent(after_attempt(w)),
        send_step_spec(w.send) == SlotSendStep::Write ==> !w.writing && !is_committed(w) && !w.taking,
        w.writing ==> slot_consistent(after_commit(w)),
        is_committed(w) ==> slot_consistent(after_take(w)),
        w.taking ==> slot_consistent(after_reset(w)),
        slot_consistent(after_receiver_gone(w)),
        send_flag & !SEND_FLAGS == 0 && send_flag & RECEIVER_DEAD == 0 && recv_flag & COMMIT == 0
            ==> slot_consistent(after_flags(w, send_flag, recv_flag)),
{
    lemma_slot_words(w.send, w.recv, send_flag, recv_flag);
}

/// A send step reports the disconnection exactly when the word it met
/// carries the receiver-gone flag, and a receive step exactly when its word
/// shows nothing committed and every sender gone.
pub proof fn law_slot_disconnects_only_when_other_side_gone(prev: u64, status: u32)
    ensures
        (send_step_spec(prev) is Disconnected) <==> prev & RECEIVER_DEAD != 0,
        (recv_step_spec(status) is Disconnected) <==> (status & COMMIT == 0 && status & SENDER_DEAD != 0),
{
}

/// The state shared by the senders and the receiver of a slot.
#[verifier::reject_recursive_types(T)]
struct Inner<T> {
    send: AtomicU64,
    /// Bumped whenever the send word is reset, for sleeping senders to wait on.
    send_wake: AtomicU32,
    recv: AtomicU32,
    num_senders: AtomicU32,
    slot: Mutex<Option<T>>,
}

/// The sending side of a one-value channel.
#[verifier::reject_recursive_types(T)]
pub struct Sender<T> {
    inner: Arc<Inner<T>>,
}

/// The receiving side of a one-value channel.
#[verifier::reject_recursive_types(T)]
pub struct Receiver<T> {
    inner: Arc<Inner<T>>,
}

impl<T> Sender<T> {
    /// This sender puts its values in the slot that `receiver` takes from.
    pub closed spec fn sends_to(&self, receiver: &Receiver<T>) -> bool {
        self.inner == receiver.inner
    }
}

/// A new one-value channel with one sender and its receiver.
pub fn mpsc<T>() -> (r: (Sender<T>, Receiver<T>))
    ensures
        r.0.sends_to(&r.1),
{
    let inner = Arc::new(
        Inner {
            send: AtomicU64::new(0),
            send_wake: AtomicU32::new(0),
            recv: AtomicU32::new(0),
            num_senders: AtomicU32::new(1),
            slot: mutex_new(None),
        },
    );
    (Sender { inner: arc_clone(&inner) }, Receiver { inner })
}

impl<T> Sender<T> {
    /// One attempt to put `data` in the slot, handing back the send word the
    /// attempt saw, with the failure if there was one.
    fn try_send_(&self, data: T) -> (r: Result<u64, (TrySendError<T>, u64)>)
        ensures
            r matches Ok(prev) ==> send_step_spec(prev) == SlotSendStep::Write,
            r matches Err((e, prev)) ==> (e is Disconnected <==> send_step_spec(prev) is Disconnected)
                && (e is Full ==> send_step_spec(prev) is Full || send_step_spec(prev) is OutOfAddressSpace),
            r matches Err((TrySendError::Full(v), _)) ==> v == data,
            r matches Err((TrySendError::Disconnected(v), _)) ==> v == data,
    {
        let prev = self.inner.send.fetch_add(1, Ordering::Relaxed);
        match send_step(prev) {
            SlotSendStep::Disconnected => {
                return Err((TrySendError::Disconnected(data), prev));
            },
            SlotSendStep::OutOfAddressSpace => {
                return Err((TrySendError::Full(data), prev));
            },
            SlotSendStep::Full => {
                return Err((TrySendError::Full(data), prev));
            },
            SlotSendStep::Write => {},
        }
        let _ = mutex_replace(&self.inner.slot, Some(data));
        let prev_recv = self.inner.recv.swap(COMMIT, Ordering::Release);
        if receiver_was_sleeping(prev_recv) {
            atomic_wake(&self.inner.recv, 1);
        }
        Ok(prev)
    }

    /// Puts `data` in the slot without blocking. Fails with `Full` while the
    /// slot holds a value that has not been received, and with
    /// `Disconnected` when the receiver is gone; either way `data` comes
    /// back.
    pub fn try_send(&self, data: T) -> (r: Result<(), TrySendError<T>>)
        ensures
            r matches Err(TrySendError::Full(v)) ==> v == data,
            r matches Err(TrySendError::Disconnected(v)) ==> v == data,
    {
        match self.try_send_(data) {
            Ok(_) => Ok(()),
            Err((e, _)) => Err(e),
        }
    }

    /// Puts `data` in the slot, sleeping while it holds a value that has not
    /// been received. Fails, handing `data` back, when the receiver is gone.
    /// A wait of 2^64 rounds, which no run reaches, also ends in that failure.
    /// The rounds, and the word the failure rests on, are `send_`.
    pub fn send(&self, data: T) -> (r: Result<(), SendError<T>>)
        ensures
            r matches Err(SendError(v)) ==> v == data,
    {
        self.send_(data).0
    }

    /// Puts `data` in the slot, sleeping while it is taken, and hands back,
    /// as ghosts, the send word that decided the last round and the number
    /// of rounds. It succeeds only when the step of that word lets it write,
    /// and fails only when that word says the receiver is gone, or after
    /// 2^64 rounds, which no run reaches; a taken slot alone never makes it
    /// fail.
    fn send_(&self, data: T) -> (r: (Result<(), SendError<T>>, Ghost<u64>, Ghost<u64>))
        ensures
            r.0 matches Err(SendError(v)) ==> v == data,
            r.0 is Ok ==> send_step_spec(r.1@) == SlotSendStep::Write,
            r.0 is Err ==> send_step_spec(r.1@) is Disconnected || r.2@ == u64::MAX,
    {
        let ghost offered = data;
        let mut pending = data;
        let mut rounds: u64 = 0;
        while rounds < u64::MAX
            invariant
                pending == offered,
                offered == data,
            decreases u64::MAX - rounds,
        {
            let generation = self.inner.send_wake.load(Ordering::Acquire);
            match self.try_send_(pending) {
                Ok(prev) => {
                    return (Ok(()), Ghost(prev), Ghost(rounds));
                },
                Err((TrySendError::Full(restored), _)) => {
                    pending = restored;
                    self.inner.send.fetch_or(SEND_SLEEPING, Ordering::Relaxed);
                    atomic_sleep(&self.inner.send_wake, generation);
                    // Pass the torch: whoever else slept beside us may still sleep.
                    self.inner.send.fetch_or(SEND_SLEEPING, Ordering::Relaxed);
                },
                Err((TrySendError::Disconnected(restored), prev)) => {
                    return (Err(SendError(restored)), Ghost(prev), Ghost(rounds));
                },
            }
            rounds = rounds + 1;
        }
        (Err(SendError(pending)), Ghost(0), Ghost(rounds))
    }
}

impl<T> Clone for Sender<T> {
    /// Another sender on the same slot.
    fn clone(&self) -> (r: Self)
        ensures
            forall|receiver: &Receiver<T>| #[trigger] r.sends_to(receiver) == self.sends_to(receiver),
    {
        self.inner.num_senders.fetch_add(1, Ordering::Relaxed);
        Sender { inner: arc_clone(&self.inner) }
    }
}

impl<T> Drop for Sender<T> {
    /// The last sender to go raises the senders-gone flag and wakes the
    /// receiver if it sleeps.
    fn drop(&mut self)
        opens_invariants none
        no_unwind
    {
        if atomic_u32_fetch_sub(&self.inner.num_senders, 1, Ordering::Relaxed) > 1 {
            return;
        }
        let prev = atomic_u32_fetch_or(&self.inner.recv, SENDER_DEAD, Ordering::Relaxed);
        if receiver_was_sleeping(prev) {
            atomic_wake(&self.inner.recv, u32::MAX);
        }
    }
}

impl<T> Receiver<T> {
    /// One attempt to take the value from the slot, handing back the receive
    /// word the attempt saw, with the value or with the failure. A value
    /// comes only when that word commits one; `Empty` comes when the word
    /// commits none, or when it commits one and the slot was found empty,
    /// which no run of the protocol reaches.
    fn try_recv_(&self) -> (r: Result<(T, u32), (TryRecvError, u32)>)
        ensures
            r matches Ok((_, status)) ==> recv_step_spec(status) == SlotRecvStep::Take,
            r matches Err((e, status)) ==> (e is Disconnected <==> recv_step_spec(status) is Disconnected),
            r matches Err((TryRecvError::Empty, status)) ==> recv_step_spec(status) != SlotRecvStep::Disconnected,
    {
        let status = self.inner.recv.load(Ordering::Acquire);
        match recv_step(status) {
            SlotRecvStep::Disconnected => {
                return Err((TryRecvError::Disconnected, status));
            },
            SlotRecvStep::Empty => {
                return Err((TryRecvError::Empty, status));
            },
            SlotRecvStep::Take => {},
        }
        self.inner.recv.fetch_and(SENDER_DEAD, Ordering::Relaxed);
        let taken = mutex_replace(&self.inner.slot, None);
        let prev_send = self.inner.send.load(Ordering::Relaxed);
        self.inner.send.store(0, Ordering::Release);
        self.inner.send_wake.fetch_add(1, Ordering::Release);
        if sender_was_sleeping(prev_send) {
            atomic_wake(&self.inner.send_wake, 1);
        }
        match taken {
            Some(value) => Ok((value, status)),
            None => Err((TryRecvError::Empty, status)),
        }
    }

    /// Takes the value from the slot without blocking. Fails with `Empty`
    /// when none is committed, and with `Disconnected` when none is
    /// committed and every sender is gone.
    pub fn try_recv(&self) -> (r: Result<T, TryRecvError>) {
        match self.try_recv_() {
            Ok((v, _)) => Ok(v),
            Err((e, _)) => Err(e),
        }
    }

    /// Takes the value from the slot, sleeping while none is committed.
    /// Fails when none is committed and every sender is gone. A wait of 2^64
    /// rounds, which no run reaches, also ends in that failure.
    pub fn recv(&self) -> (r: Result<T, RecvError>) {
        self.recv_().0
    }

    /// Takes the value from the slot, sleeping while none is committed, and
    /// hands back, as ghosts, the receive word that decided the last round
    /// and the number of rounds. A value comes only when that word commits
    /// one; it fails only when that word shows nothing committed and every
    /// sender gone, or after 2^64 rounds, which no run reaches.
    fn recv_(&self) -> (r: (Result<T, RecvError>, Ghost<u32>, Ghost<u64>))
        ensures
            r.0 is Ok ==> recv_step_spec(r.1@) == SlotRecvStep::Take,
            r.0 is Err ==> recv_step_spec(r.1@) is Disconnected || r.2@ == u64::MAX,
    {
        let mut rounds: u64 = 0;
        while rounds < u64::MAX
            decreases u64::MAX - rounds,
        {
            match self.try_recv_() {
                Ok((v, status)) => {
                    return (Ok(v), Ghost(status), Ghost(rounds));
                },
                Err((TryRecvError::Empty, status)) => {
                    self.inner.recv.fetch_or(RECV_SLEEPING, Ordering::Relaxed);
                    atomic_sleep(&self.inner.recv, status | RECV_SLEEPING);
                },
                Err((TryRecvError::Disconnected, status)) => {
                    return (Err(RecvError), Ghost(status), Ghost(rounds));
                },
            }
            rounds = rounds + 1;
        }
        (Err(RecvError), Ghost(0), Ghost(rounds))
    }
}

impl<T> Drop for Receiver<T> {
    /// The receiver raises the receiver-gone flag, clearing the reservation
    /// count, and wakes every sleeping sender.
    fn drop(&mut self)
        opens_invariants none
        no_unwind
    {
        let prev = atomic_u64_swap(&self.inner.send, RECEIVER_DEAD, Ordering::Relaxed);
        atomic_u32_fetch_add(&self.inner.send_wake, 1, Ordering::Release);
        if sender_was_sleeping(prev) {
            atomic_wake(&self.inner.send_wake, u32::MAX);
        }
    }
}

} // verus!
