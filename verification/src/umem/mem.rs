//! The memory a UMEM's frames lie in.

use vstd::prelude::*;

verus! {

/// A framed, memory mapped region which functions as the working memory
/// for some UMEM.
#[derive(Debug, Clone, Copy, PartialEq, Eq, Structural)]
pub struct UmemRegion {
    addr: usize,
    len: usize,
}

impl UmemRegion {
    /// The address of the region.
    pub closed spec fn addr_view(self) -> usize {
        self.addr
    }

    /// The size of the region in bytes.
    pub closed spec fn len_view(self) -> usize {
        self.len
    }

    /// The number of bytes to map for `frame_count` frames of
    /// `frame_size` bytes each.
    pub fn size_of_frames(frame_count: u32, frame_size: u32) -> (r: usize)
        requires
            frame_count * frame_size <= usize::MAX,
        ensures
            r == frame_count * frame_size,
    {
        frame_count as usize * frame_size as usize
    }

    /// The region of `frame_count` frames of `frame_size` bytes each.
    ///
    /// `mapped` is the outcome of mapping
    /// [`size_of_frames`](Self::size_of_frames) bytes: the address of
    /// the mapping, or the error that mapping it ended in.
    pub fn new<E>(frame_count: u32, frame_size: u32, mapped: Result<usize, E>) -> (r: Result<
        Self,
        E,
    >)
        requires
            frame_count * frame_size <= usize::MAX,
        ensures
            match mapped {
                Ok(addr) => {
                    &&& r is Ok
                    &&& r->Ok_0.addr_view() == addr
                    &&& r->Ok_0.len_view() == frame_count * frame_size
                },
                Err(e) => r == Err::<Self, E>(e),
            },
    {
        let len = Self::size_of_frames(frame_count, frame_size);
        match mapped {
            Ok(addr) => Ok(UmemRegion { addr, len }),
            Err(e) => Err(e),
        }
    }

    /// The size of the underlying memory region.
    pub fn len(&self) -> (r: usize)
        ensures
            r == self.len_view(),
    {
        self.len
    }

    /// The address of the start of the memory region.
    pub fn as_ptr(&self) -> (r: usize)
        ensures
            r == self.addr_view(),
    {
        self.addr
    }
}

} // verus!
