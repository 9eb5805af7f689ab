//! Sockets, and the queue that hands over what they receive.

pub mod rx_queue;

pub use rx_queue::RxQueue;
use vstd::prelude::*;

verus! {

/// A socket's file descriptor.
#[derive(Debug, Clone, Copy, PartialEq, Eq, Structural)]
pub struct Fd {
    /// The number of the descriptor.
    pub id: i32,
}

/// What the queues know of the socket they belong to.
#[derive(Debug, Clone, Copy, PartialEq, Eq, Structural)]
pub struct Socket {
    /// The socket's file descriptor.
    pub fd: Fd,
}

} // verus!
