//! # xsk-core
//!
//! The rings and queues of AF_XDP sockets, verified.
//!
//! User space and the kernel exchange UMEM frames over four kinds of
//! ring. This crate holds what user space does with them: counting free
//! slots and available entries, reserving, submitting, peeking,
//! cancelling and releasing, and moving batches of frame addresses and
//! descriptors on and off a ring across its end.
//!
//! - [`ring`] has the producer and consumer rings, with the positions
//!   that each side keeps and the cached copies of them;
//! - [`slots`] has the arithmetic that maps positions to slots;
//! - [`FillQueue`], [`CompQueue`] and [`RxQueue`] are the queues on top
//!   of the rings; and
//! - [`FrameDesc`] is a thin layer over the kernel's descriptor. It
//!   carries the `u64` address, the `u32` length and the `u32` options
//!   that are exchanged with the kernel. It does not own packet memory
//!   and does not interpret packet contents.
//!
//! The rings here hold plain values. Mapping memory, polling sockets and
//! the loads and stores of shared positions are done by whoever drives a
//! queue: it reports what the kernel has done as an event
//! (`kernel_consume`, `kernel_produce`, `kernel_set_flags`), calls the
//! queue, and publishes the positions and entries that the queue's ring
//! then has.
//!
//! ## Ownership
//!
//! The ownership rules of AF_XDP apply:
//!
//! - Do not access a frame after submitting its descriptor to the fill
//!   queue until it is returned through the receive ring, or, for a
//!   frame that has been transmitted, through the completion queue.
//! - Do not use a descriptor from one UMEM to access another UMEM.
//! - Treat descriptor addresses as offsets within the UMEM associated
//!   with the descriptor.

pub mod ring;
pub mod slots;
pub mod socket;
pub mod umem;

pub use socket::{RxQueue, Socket};
pub use umem::{frame::FrameDesc, CompQueue, FillQueue, UmemRegion};
