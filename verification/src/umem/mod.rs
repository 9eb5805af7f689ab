//! UMEM frames, the memory they lie in, and the queues that move them to
//! and from the kernel.

pub mod comp_queue;
pub mod fill_queue;
pub mod frame;
pub mod mem;

pub use comp_queue::CompQueue;
pub use fill_queue::FillQueue;
pub use mem::UmemRegion;
