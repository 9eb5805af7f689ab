//! Frame descriptors.

use vstd::prelude::*;

verus! {

/// This option will be set on all but the last [`FrameDesc`] if
/// multi-buffer is enabled. Check this to determine if more fragments
/// exist for this packet.
pub const XDP_PKT_CONTD: u32 = 1;

/// A descriptor as it lies on an RX or TX ring: the kernel's `xdp_desc`.
#[derive(Debug, Clone, Copy)]
pub struct XdpDesc {
    /// The offset of the packet data from the start of the UMEM.
    pub addr: u64,
    /// The length of the packet data in bytes.
    pub len: u32,
    /// Descriptor options.
    pub options: u32,
}

/// A UMEM frame descriptor.
///
/// Used to pass frame information between the kernel and user space.
/// `addr` is an offset in bytes from the start of the UMEM and
/// corresponds to the starting address of the packet data segment of
/// some frame. `length` describes the length (in bytes) of any data
/// stored in the frame's headroom or data segments.
///
/// It carries what an [`XdpDesc`] carries and nothing else, so that is
/// its view.
#[derive(Debug, Clone, Copy)]
pub struct FrameDesc {
    pub(crate) addr: u64,
    pub(crate) length: u32,
    pub(crate) options: u32,
}

impl View for FrameDesc {
    type V = XdpDesc;

    closed spec fn view(&self) -> XdpDesc {
        XdpDesc { addr: self.addr, len: self.length, options: self.options }
    }
}

impl FrameDesc {
    /// Creates a new frame descriptor.
    ///
    /// `addr` must be the starting address of the packet data segment
    /// of some UMEM frame.
    pub fn new(addr: u64) -> (r: Self)
        ensures
            r@ == (XdpDesc { addr, len: 0, options: 0 }),
    {
        FrameDesc { addr, length: 0, options: 0 }
    }

    /// Replaces the default options with the provided value.
    pub fn with_options(self, options: u32) -> (r: Self)
        ensures
            r@ == (XdpDesc { options, ..self@ }),
    {
        FrameDesc { addr: self.addr, length: self.length, options }
    }

    /// Replaces the default segment lengths.
    pub fn with_length(self, data: u32) -> (r: Self)
        ensures
            r@ == (XdpDesc { len: data, ..self@ }),
    {
        FrameDesc { addr: self.addr, length: data, options: self.options }
    }

    /// The starting address of the packet data segment of the frame
    /// pointed at by this descriptor.
    pub fn addr(&self) -> (r: u64)
        ensures
            r == self@.addr,
    {
        self.addr
    }

    /// Current packet data lengths for the frame pointed at by this
    /// descriptor.
    pub fn length(&self) -> (r: u32)
        ensures
            r == self@.len,
    {
        self.length
    }

    /// Frame options.
    pub fn options(&self) -> (r: u32)
        ensures
            r == self@.options,
    {
        self.options
    }

    /// Set the frame options.
    pub fn set_options(&mut self, options: u32)
        ensures
            final(self)@ == (XdpDesc { options, ..old(self)@ }),
    {
        self.options = options;
    }

    /// True if multi-buffer is enabled and we have more frames for this
    /// packet: if [`XDP_PKT_CONTD`], the lowest bit of the options, is
    /// set.
    pub fn has_more_frames(&self) -> (r: bool)
        ensures
            r == (self@.options % 2 == 1),
    {
        let options = self.options;
        assert(options & 1 == options % 2) by (bit_vector);
        (self.options & XDP_PKT_CONTD) == 1
    }

    /// Writes this descriptor to a ring's.
    pub fn write_xdp_desc(&self, desc: &mut XdpDesc)
        ensures
            *final(desc) == self@,
    {
        desc.addr = self.addr;
        desc.len = self.length;
        desc.options = self.options;
    }

    /// Reads a descriptor from a ring's.
    pub fn read_xdp_desc(desc: &XdpDesc) -> (r: Self)
        ensures
            r@ == *desc,
    {
        FrameDesc { addr: desc.addr, length: desc.len, options: desc.options }
    }

    /// Copies a contiguous range of ring descriptors into frame
    /// descriptors.
    pub fn read_xdp_desc_slice(src: &[XdpDesc], dst: &mut [FrameDesc])
        requires
            src@.len() == old(dst)@.len(),
        ensures
            final(dst)@.len() == src@.len(),
            forall|i: int| 0 <= i < src@.len() ==> (#[trigger] final(dst)@[i])@ == src@[i],
    {
        let count = src.len();
        let mut i: usize = 0;
        while i < count
            invariant
                i <= count,
                count == src@.len(),
                count == dst@.len(),
                forall|j: int| 0 <= j < i ==> (#[trigger] dst@[j])@ == src@[j],
            decreases count - i,
        {
            dst[i] = FrameDesc::read_xdp_desc(&src[i]);
            i += 1;
        }
    }
}

impl Default for FrameDesc {
    /// Creates an empty frame descriptor with an address of zero and
    /// segment lengths also set to zero.
    ///
    /// Since the address of any descriptors created this way is always
    /// zero, before using them to write to the UMEM they should first
    /// be 'initialised' by passing them to the
    /// [`RxQueue`](crate::RxQueue), so they can be populated with the
    /// details of a free frame.
    fn default() -> (r: Self)
        ensures
            r@ == (XdpDesc { addr: 0, len: 0, options: 0 }),
    {
        FrameDesc { addr: 0, length: 0, options: 0 }
    }
}

/// A descriptor read from where another was written is that other:
/// `desc` is what [`FrameDesc::write_xdp_desc`] leaves of `wrote`, and
/// `read` what [`FrameDesc::read_xdp_desc`] makes of `desc`.
pub proof fn desc_written_is_desc_read(wrote: FrameDesc, desc: XdpDesc, read: FrameDesc)
    requires
        desc == wrote@,
        read@ == desc,
    ensures
        read == wrote,
{
}

} // verus!
