use cueue::{errno_with_hint, next_power_two, syscall_error, CueueError, Layout, SyscallOp};

#[test]
fn next_power_two_values() {
    assert_eq!(next_power_two(0), Ok(1));
    assert_eq!(next_power_two(1), Ok(1));
    assert_eq!(next_power_two(2), Ok(2));
    assert_eq!(next_power_two(3), Ok(4));
    assert_eq!(next_power_two(4096), Ok(4096));
    assert_eq!(next_power_two(4097), Ok(8192));
    assert_eq!(next_power_two(1 << 63), Ok(1 << 63));
}

#[test]
fn next_power_two_overflow() {
    assert_eq!(next_power_two((1 << 63) + 1), Err(CueueError::CapacityOverflow));
    assert_eq!(next_power_two(usize::MAX), Err(CueueError::CapacityOverflow));
}

#[test]
fn layout_capacity_values() {
    let small = Layout::new(16, 4096, 1).unwrap();
    assert_eq!(small.capacity, 4096);
    let larger = Layout::new(4097, 4096, 1).unwrap();
    assert_eq!(larger.capacity, 8192);
}

#[test]
fn byte_queue_gets_one_page() {
    let l = Layout::new(16, 4096, 1).unwrap();
    assert_eq!(l.capacity, 4096);
    assert_eq!(l.elem_size, 1);
    assert_eq!(l.buffer_bytes, 4096);
    assert_eq!(l.region_bytes, 8192);
}

#[test]
fn zero_request_gets_page_minimum() {
    assert_eq!(Layout::new(0, 4096, 1).unwrap().capacity, 4096);
    assert_eq!(Layout::new(0, 4096, 8).unwrap().capacity, 512);
    assert_eq!(Layout::new(0, 16384, 4).unwrap().capacity, 4096);
}

#[test]
fn capacity_is_power_of_two_and_page_sized() {
    for &(req, elem) in &[(1usize, 1usize), (100, 8), (5000, 16), (3, 24), (70000, 12), (1, 8192)] {
        let l = Layout::new(req, 4096, elem).unwrap();
        assert!(l.capacity.is_power_of_two());
        assert!(l.capacity >= req);
        assert!(l.capacity >= 4096 / elem);
        assert_eq!(l.buffer_bytes % 4096, 0);
        assert_eq!(l.buffer_bytes, l.capacity * elem);
        assert_eq!(l.region_bytes, 2 * l.buffer_bytes);
    }
}

#[test]
fn odd_element_size_rounds_to_whole_pages() {
    // 24 bytes count as 8 when sizing: 4096 / 8 = 512 slots, 12288 bytes.
    let l = Layout::new(1, 4096, 24).unwrap();
    assert_eq!(l.capacity, 512);
    assert_eq!(l.buffer_bytes, 12288);
}

#[test]
fn huge_request_overflows() {
    assert_eq!(Layout::new((1 << 63) + 1, 4096, 1), Err(CueueError::CapacityOverflow));
    assert_eq!(Layout::new(usize::MAX, 4096, 1), Err(CueueError::CapacityOverflow));
}

#[test]
fn region_too_large() {
    assert_eq!(Layout::new(1 << 62, 4096, 1), Err(CueueError::LayoutTooLarge));
    assert_eq!(Layout::new(1 << 60, 4096, 8), Err(CueueError::LayoutTooLarge));
    assert!(Layout::new(1 << 61, 4096, 1).is_ok());
}

#[test]
fn syscall_error_names_its_call() {
    match errno_with_hint(SyscallOp::MapAlias) {
        CueueError::Syscall { op, .. } => assert_eq!(op, SyscallOp::MapAlias),
        other => panic!("unexpected error {:?}", other),
    }
}

#[test]
fn syscall_hints() {
    assert_eq!(SyscallOp::CreateMemFile.hint(), "memfd_create");
    assert_eq!(SyscallOp::Truncate.hint(), "ftruncate");
    assert_eq!(SyscallOp::MapReserve.hint(), "mmap-reserve");
    assert_eq!(SyscallOp::MapPrimary.hint(), "mmap-first");
    assert_eq!(SyscallOp::MapAlias.hint(), "mmap-second");
}

#[test]
fn syscall_error_carries_code() {
    assert_eq!(
        syscall_error(SyscallOp::Truncate, Some(22)),
        CueueError::Syscall { op: SyscallOp::Truncate, code: 22 }
    );
    assert_eq!(
        syscall_error(SyscallOp::MapPrimary, None),
        CueueError::Syscall { op: SyscallOp::MapPrimary, code: 0 }
    );
}
