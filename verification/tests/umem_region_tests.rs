use xsk_core::UmemRegion;

#[test]
fn a_region_is_as_long_as_its_frames() {
    assert_eq!(UmemRegion::size_of_frames(64, 4096), 262_144);
    assert_eq!(UmemRegion::size_of_frames(1, 2048), 2048);

    let region = UmemRegion::new::<&str>(64, 4096, Ok(0x7000)).unwrap();

    assert_eq!(region.len(), 262_144);
    assert_eq!(region.as_ptr(), 0x7000);
}

#[test]
fn a_region_that_cannot_be_mapped_is_an_error() {
    assert_eq!(UmemRegion::new(64, 4096, Err("mmap")), Err("mmap"));
}

#[test]
fn ensure_usize_and_u64_are_same_size() {
    assert_eq!(std::mem::size_of::<usize>(), std::mem::size_of::<u64>());
}
