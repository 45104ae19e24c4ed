use vstd::prelude::*;

verus! {

/// A blocking send failed because every receiver is gone; the data comes
/// back.
#[derive(PartialEq, Eq, Debug)]
pub struct SendError<T>(pub T);

/// A non-blocking send failed; the data comes back.
#[derive(PartialEq, Eq, Debug)]
pub enum TrySendError<T> {
    /// No room right now.
    Full(T),
    /// Every receiver is gone.
    Disconnected(T),
}

/// A blocking receive failed because every sender is gone and nothing is
/// left.
#[derive(PartialEq, Eq, Debug, Clone, Copy)]
pub struct RecvError;

/// A non-blocking receive found nothing.
#[derive(PartialEq, Eq, Debug, Clone, Copy)]
pub enum TryRecvError {
    /// Nothing right now.
    Empty,
    /// Every sender is gone and nothing is left.
    Disconnected,
}

} // verus!
