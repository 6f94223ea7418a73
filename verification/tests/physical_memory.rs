use axiom_kernel::physical_memory::{FrameState, MemoryRegion, PageSize, Size4KiB};

#[test]
fn test_new_region() {
    let region = MemoryRegion::new(0x1000, 10, FrameState::Free);
    assert_eq!(region.base_addr(), 0x1000);
    assert_eq!(region.len(), 10);
    assert!(region.frames().iter().all(|&s| s == FrameState::Free));
}

#[test]
fn test_frame_index() {
    let region = MemoryRegion::new(0x1000, 10, FrameState::Free);

    assert_eq!(region.frame_index(0x0), None);
    assert_eq!(region.frame_index(0x1000), Some(0));
    assert_eq!(region.frame_index(0x2000), Some(1));
    assert_eq!(region.frame_index(0x1000 + 9 * Size4KiB::SIZE), Some(9));
    assert_eq!(region.frame_index(0x1000 + 10 * Size4KiB::SIZE), None);
}

#[test]
fn test_frame_address() {
    let region = MemoryRegion::new(0x1000, 10, FrameState::Free);

    assert_eq!(region.frame_address(0), Some(0x1000));
    assert_eq!(region.frame_address(1), Some(0x1000 + Size4KiB::SIZE));
    assert_eq!(region.frame_address(9), Some(0x1000 + 9 * Size4KiB::SIZE));
    assert_eq!(region.frame_address(10), None);
}

#[test]
fn test_frames_mut() {
    let mut region = MemoryRegion::new(0x0, 5, FrameState::Free);
    region.frames_mut()[2] = FrameState::Allocated;

    assert_eq!(region.frames()[0], FrameState::Free);
    assert_eq!(region.frames()[2], FrameState::Allocated);
    assert_eq!(region.frames()[4], FrameState::Free);
}

#[test]
fn frame_index_of_address_inside_a_frame() {
    let region = MemoryRegion::with_frames(0x10_0000, vec![FrameState::Free, FrameState::Allocated]);
    assert_eq!(region.frame_index(0x10_0FFF), Some(0));
    assert_eq!(region.frame_index(0x10_1234), Some(1));
    assert_eq!(region.frame_address(region.frame_index(0x10_1234).unwrap()), Some(0x10_1000));
    assert!(!region.is_empty());
    assert!(MemoryRegion::new(0, 0, FrameState::Free).is_empty());
}
