use vstd::prelude::*;

use std::sync::{Arc, Mutex};
use std::time::{Duration, Instant};

use crate::sync::{
    arc_clone, arc_into_inner, duration_max, instant_checked_add, instant_now, mutex_into_inner,
    mutex_new, mutex_replace,
};

verus! {

/// What the slot holds.
pub enum Kind<T> {
    /// Nothing.
    Null,
    /// Nothing, and the receiver waits for a value.
    Sleeping,
    /// A value that has not been received.
    Value(T),
}

/// The state shared by the senders and the receiver.
#[verifier::reject_recursive_types(T)]
struct Inner<T> {
    ptr: Mutex<Kind<T>>,
}

/// The sending side of a slot that keeps only the latest value.
#[verifier::reject_recursive_types(T)]
pub struct Sender<T> {
    inner: Arc<Inner<T>>,
}

/// The single receiving side of a slot that keeps only the latest value.
#[verifier::reject_recursive_types(T)]
pub struct SoloReceiver<T> {
    inner: Arc<Inner<T>>,
}

impl<T> Sender<T> {
    /// This sender puts its values in the slot that `receiver` takes from.
    pub closed spec fn sends_to(&self, receiver: &SoloReceiver<T>) -> bool {
        self.inner == receiver.inner
    }
}

/// A new empty slot with one sender and its receiver.
pub fn mpsc<T>() -> (r: (Sender<T>, SoloReceiver<T>))
    ensures
        r.0.sends_to(&r.1),
{
    let inner = Arc::new(Inner { ptr: mutex_new(Kind::Null) });
    (Sender { inner: arc_clone(&inner) }, SoloReceiver { inner })
}

/// The value that `kind` holds, if any.
pub fn into_value<T>(kind: Kind<T>) -> (r: Option<T>)
    ensures
        match kind {
            Kind::Value(v) => r == Some(v),
            _ => r is None,
        },
{
    match kind {
        Kind::Value(value) => Some(value),
        Kind::Null | Kind::Sleeping => None,
    }
}

impl<T> Inner<T> {
    /// The value left in a slot that nobody shares any more.
    fn into_inner(self) -> Option<T> {
        into_value(mutex_into_inner(self.ptr))
    }
}

impl<T> Sender<T> {
    /// Puts `value` in the slot, replacing the value that was there and had
    /// not been received, which comes back.
    pub fn try_send(&self, value: T) -> (r: Option<T>) {
        into_value(mutex_replace(&self.inner.ptr, Kind::Value(value)))
    }
}

impl<T> Clone for Sender<T> {
    /// Another sender on the same slot.
    fn clone(&self) -> (r: Self)
        ensures
            forall|receiver: &SoloReceiver<T>| #[trigger] r.sends_to(receiver) == self.sends_to(receiver),
    {
        Sender { inner: arc_clone(&self.inner) }
    }
}

impl<T> SoloReceiver<T> {
    /// Takes the value from the slot without waiting.
    pub fn try_recv(&self) -> (r: Option<T>) {
        self.recv_(None)
    }

    /// Takes the value from the slot; an unbounded wait, since no deadline
    /// lies `Duration::MAX` away.
    pub fn recv(&self) -> (r: Option<T>) {
        self.recv_timeout(duration_max())
    }

    /// Takes the value from the slot, waiting for one until `timeout` has
    /// passed.
    pub fn recv_timeout(&self, timeout: Duration) -> (r: Option<T>) {
        self.recv_(instant_checked_add(instant_now(), timeout))
    }

    /// Takes the value from the slot, waiting for one until `deadline`.
    pub fn recv_deadline(&self, deadline: Instant) -> (r: Option<T>) {
        self.recv_(Some(deadline))
    }

    /// Takes the value; when there is none and a deadline is given, marks
    /// the slot as awaited and looks once more before giving up, leaving the
    /// slot empty again.
    fn recv_(&self, deadline: Option<Instant>) -> (r: Option<T>) {
        match mutex_replace(&self.inner.ptr, Kind::Null) {
            Kind::Value(value) => Some(value),
            Kind::Null | Kind::Sleeping => {
                match deadline {
                    None => None,
                    Some(_) => match mutex_replace(&self.inner.ptr, Kind::Sleeping) {
                        Kind::Value(value) => Some(value),
                        Kind::Null | Kind::Sleeping => into_value(
                            mutex_replace(&self.inner.ptr, Kind::Null),
                        ),
                    },
                }
            },
        }
    }

    /// Gives up the receiving side. The value left in the slot comes back
    /// when no sender remains either.
    pub fn shutdown(self) -> (r: Option<T>) {
        let SoloReceiver { inner } = self;
        match arc_into_inner(inner) {
            Some(data) => data.into_inner(),
            None => None,
        }
    }
}

} // verus!
