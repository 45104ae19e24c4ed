use vstd::prelude::*;

pub mod buffer;
pub mod error;
pub mod mask;
pub mod mpmc;
pub mod mpsc;
pub mod slot;

pub use buffer::{SendBuffer, SendBufferContainer};
pub use mpmc::mpmc;
pub use slot::{mpsc as mpsc_slot, Receiver as SlotReceiver, Sender as SlotSender};

verus! {

/// The sending side of the bag that `mpmc` makes.
pub type MpmcSender<T> = mpmc::Sender<T>;

/// The receiving side of the bag that `mpmc` makes.
pub type MpmcReceiver<T> = mpmc::Receiver<T>;

} // verus!
