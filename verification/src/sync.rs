use vstd::prelude::*;

use std::sync::atomic::{AtomicU32, AtomicU64, Ordering};
use std::sync::{Arc, Mutex, MutexGuard, PoisonError};

verus! {

/// `std::sync::Mutex`, whose contents verified code never reads directly.
#[verifier::external_type_specification]
#[verifier::external_body]
#[verifier::reject_recursive_types(T)]
pub struct ExMutex<T: ?Sized>(Mutex<T>);

/// Another handle to the same value (`<Arc<T> as Clone>::clone`; std: "Makes
/// a clone of the Arc pointer. This creates another pointer to the same
/// allocation").
#[verifier::external_body]
pub fn arc_clone<T>(a: &Arc<T>) -> (r: Arc<T>)
    ensures
        r == *a,
{
    a.clone()
}

/// `std::hint::spin_loop`: a hint to the processor, with no effect on any value.
pub assume_specification[ core::hint::spin_loop ]();

/// A new mutex holding `value` (`std::sync::Mutex::new`). Nothing is stated of
/// the contents, which verified code never reads except through
/// `mutex_replace`.
#[verifier::external_body]
pub fn mutex_new<T>(value: T) -> Mutex<T> {
    Mutex::new(value)
}

/// `std::sync::MutexGuard`, the proof that a mutex is held, which verified
/// code only passes along.
#[verifier::external_type_specification]
#[verifier::external_body]
#[verifier::reject_recursive_types(T)]
pub struct ExMutexGuard<'a, T: ?Sized + 'a>(MutexGuard<'a, T>);

/// `std::sync::PoisonError`, the error of a lock whose holder panicked; it
/// still carries what the lock would have given.
#[verifier::external_type_specification]
#[verifier::external_body]
#[verifier::reject_recursive_types(T)]
pub struct ExPoisonError<T>(PoisonError<T>);

/// Locks the mutex, waiting for it (`std::sync::Mutex::lock`): the guard,
/// or, when a holder panicked, the poison error that carries it. Nothing is
/// stated of which, since that depends on other threads.
/// std panics or never returns when the calling thread already holds the
/// lock; this item stays private to this file, and its one caller,
/// `mutex_replace`, holds no guard when it locks.
#[verifier::external_body]
fn mutex_lock<'a, T>(m: &'a Mutex<T>) -> Result<MutexGuard<'a, T>, PoisonError<MutexGuard<'a, T>>> {
    m.lock()
}

/// What a poisoned lock would have given (`std::sync::PoisonError::into_inner`).
/// Nothing is stated of it, since verified code never looks inside it.
#[verifier::external_body]
fn poison_into_inner<G>(e: PoisonError<G>) -> G {
    e.into_inner()
}

/// The contents that a held lock guards (`DerefMut::deref_mut` on
/// `std::sync::MutexGuard`). Nothing is stated of them, since other
/// threads stored them.
#[verifier::external_body]
fn guard_contents<'g, 'a, T>(g: &'g mut MutexGuard<'a, T>) -> &'g mut T {
    &mut **g
}

/// Locks the mutex, a poisoned lock included, and swaps its contents with
/// `value`, returning what it held. What comes back depends on what other
/// threads stored, so nothing is stated of it.
pub fn mutex_replace<T>(m: &Mutex<T>, value: T) -> T {
    let mut guard = match mutex_lock(m) {
        Ok(g) => g,
        Err(e) => poison_into_inner(e),
    };
    let mut swapped = value;
    core::mem::swap(guard_contents(&mut guard), &mut swapped);
    swapped
}

/// The contents of a mutex that is no longer shared
/// (`std::sync::Mutex::into_inner`): the contents, or, when a holder
/// panicked, the poison error that carries them. Nothing is stated of them,
/// since other threads may have stored them.
#[verifier::external_body]
fn mutex_take_inner<T>(m: Mutex<T>) -> Result<T, PoisonError<T>> {
    m.into_inner()
}

/// The contents of a mutex that is no longer shared, a poisoned one
/// included.
pub fn mutex_into_inner<T>(m: Mutex<T>) -> T {
    match mutex_take_inner(m) {
        Ok(v) => v,
        Err(e) => poison_into_inner(e),
    }
}

/// `Arc::into_inner`: the value when `a` is the last handle to it, `None`
/// otherwise. Which one it is depends on the other handles, so only the
/// first is stated.
#[verifier::external_body]
pub fn arc_into_inner<T>(a: Arc<T>) -> (r: Option<T>)
    ensures
        r matches Some(v) ==> v == *a,
{
    Arc::into_inner(a)
}

/// `AtomicU32::fetch_sub`, which never unwinds. What it returns depends on
/// other threads.
#[verifier::external_body]
pub fn atomic_u32_fetch_sub(a: &AtomicU32, v: u32, order: Ordering) -> u32
    opens_invariants none
    no_unwind
{
    a.fetch_sub(v, order)
}

/// `AtomicU32::fetch_and`, which never unwinds. What it returns depends on
/// other threads.
#[verifier::external_body]
pub fn atomic_u32_fetch_and(a: &AtomicU32, v: u32, order: Ordering) -> u32
    opens_invariants none
    no_unwind
{
    a.fetch_and(v, order)
}

/// `AtomicU32::fetch_or`, which never unwinds. What it returns depends on
/// other threads.
#[verifier::external_body]
pub fn atomic_u32_fetch_or(a: &AtomicU32, v: u32, order: Ordering) -> u32
    opens_invariants none
    no_unwind
{
    a.fetch_or(v, order)
}

/// `AtomicU32::fetch_add`, which never unwinds. What it returns depends on
/// other threads.
#[verifier::external_body]
pub fn atomic_u32_fetch_add(a: &AtomicU32, v: u32, order: Ordering) -> u32
    opens_invariants none
    no_unwind
{
    a.fetch_add(v, order)
}

/// `AtomicU64::swap`, which never unwinds. What it returns depends on other
/// threads.
#[verifier::external_body]
pub fn atomic_u64_swap(a: &AtomicU64, v: u64, order: Ordering) -> u64
    opens_invariants none
    no_unwind
{
    a.swap(v, order)
}

/// `std::time::Instant`, a point in time that verified code only passes along.
#[verifier::external_type_specification]
#[verifier::external_body]
pub struct ExInstant(std::time::Instant);

/// The current time (`std::time::Instant::now`). It depends on the clock,
/// so nothing is stated of it.
#[verifier::external_body]
pub fn instant_now() -> std::time::Instant {
    std::time::Instant::now()
}

/// `start` moved on by `d` (`std::time::Instant::checked_add`), or `None`
/// when that point cannot be represented. Which one it is depends on the
/// platform's clock representation, so nothing is stated of it.
#[verifier::external_body]
pub fn instant_checked_add(start: std::time::Instant, d: std::time::Duration) -> Option<std::time::Instant> {
    start.checked_add(d)
}

/// The longest duration there is (`std::time::Duration::MAX`).
#[verifier::external_body]
pub fn duration_max() -> std::time::Duration {
    std::time::Duration::MAX
}

/// Wakes up to `waiters` threads sleeping on `word`
/// (`rustix::thread::futex::wake` with private futexes); a failed call wakes
/// nobody. How many woke depends on the other threads, so nothing is
/// stated of it.
#[verifier::external_body]
pub fn atomic_wake(word: &AtomicU32, waiters: u32) -> usize
    opens_invariants none
    no_unwind
{
    rustix::thread::futex::wake(word, rustix::thread::futex::Flags::PRIVATE, waiters).unwrap_or(0)
}

/// Sleeps on `word` while it holds `expected`
/// (`rustix::thread::futex::wait` with private futexes and no timeout). It
/// returns when woken, when the word no longer holds `expected`, on an
/// interrupt, or on any other failure of the call.
#[verifier::external_body]
pub fn atomic_sleep(word: &AtomicU32, expected: u32) {
    let _ = rustix::thread::futex::wait(word, rustix::thread::futex::Flags::PRIVATE, expected, None);
}

} // verus!
