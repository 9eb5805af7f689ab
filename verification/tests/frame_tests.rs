use xsk_core::umem::frame::XdpDesc;
use xsk_core::FrameDesc;

#[test]
fn a_new_descriptor_has_only_an_address() {
    let desc = FrameDesc::new(4096);

    assert_eq!(desc.addr(), 4096);
    assert_eq!(desc.length(), 0);
    assert_eq!(desc.options(), 0);

    let empty = FrameDesc::default();

    assert_eq!(empty.addr(), 0);
    assert_eq!(empty.length(), 0);
    assert_eq!(empty.options(), 0);
}

#[test]
fn builders_replace_one_field_each() {
    let desc = FrameDesc::new(1).with_length(2).with_options(3);

    assert_eq!(desc.addr(), 1);
    assert_eq!(desc.length(), 2);
    assert_eq!(desc.options(), 3);

    let mut other = desc;
    other.set_options(4);

    assert_eq!(other.addr(), 1);
    assert_eq!(other.length(), 2);
    assert_eq!(other.options(), 4);
    assert_eq!(desc.options(), 3);
}

#[test]
fn the_lowest_option_bit_tells_of_more_frames() {
    assert!(FrameDesc::new(0).with_options(1).has_more_frames());
    assert!(FrameDesc::new(0).with_options(u32::MAX).has_more_frames());
    assert!(!FrameDesc::new(0).has_more_frames());
    assert!(!FrameDesc::new(0).with_options(2).has_more_frames());
    assert!(!FrameDesc::new(0).with_options(u32::MAX - 1).has_more_frames());
}

#[test]
fn a_descriptor_reads_back_as_it_was_written() {
    let desc = FrameDesc::new(u64::MAX).with_length(u32::MAX).with_options(7);
    let mut raw = XdpDesc { addr: 0, len: 0, options: 0 };

    desc.write_xdp_desc(&mut raw);

    assert_eq!(raw.addr, u64::MAX);
    assert_eq!(raw.len, u32::MAX);
    assert_eq!(raw.options, 7);

    let read = FrameDesc::read_xdp_desc(&raw);

    assert_eq!(read.addr(), desc.addr());
    assert_eq!(read.length(), desc.length());
    assert_eq!(read.options(), desc.options());
}

#[test]
fn a_range_of_descriptors_is_copied_in_order() {
    let src = [
        XdpDesc { addr: 1, len: 2, options: 3 },
        XdpDesc { addr: 4, len: 5, options: 6 },
    ];
    let mut dst = [FrameDesc::default(); 2];

    FrameDesc::read_xdp_desc_slice(&src, &mut dst);

    assert_eq!(dst[0].addr(), 1);
    assert_eq!(dst[0].length(), 2);
    assert_eq!(dst[0].options(), 3);
    assert_eq!(dst[1].addr(), 4);
    assert_eq!(dst[1].length(), 5);
    assert_eq!(dst[1].options(), 6);
}
