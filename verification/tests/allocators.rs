//! Tests of the three allocation strategies' one-shot and capacity rules.

use msgkit::{AllocFault, Allocator, CapnpAlloc, CapnpBorrowAlloc, CapnpHeapAlloc};

#[test]
fn inline_allocate_twice_faults() {
    let mut a: CapnpAlloc<64> = CapnpAlloc::new();
    let seg = a.allocate_segment(2).unwrap();
    assert_eq!(seg.len(), 64);
    assert!(seg.iter().all(|&b| b == 0));
    assert_eq!(a.allocate_segment(1), Err(AllocFault::AlreadyAllocated));
}

#[test]
fn inline_store_capacity_fault() {
    let mut a: CapnpAlloc<64> = CapnpAlloc::new();
    // 9 words are 72 bytes, more than the 64-byte store.
    assert_eq!(a.allocate_segment(9), Err(AllocFault::OutOfCapacity));
    // The failed request does not engage the store.
    assert!(a.allocate_segment(8).is_ok());
}

#[test]
fn borrow_allocate_twice_faults() {
    let window = vec![0xffu8; 40];
    let mut a = CapnpBorrowAlloc::new(window);
    let seg = a.allocate_segment(3).unwrap();
    assert_eq!(seg.len(), 40);
    assert!(seg.iter().all(|&b| b == 0), "the window must be zero-filled");
    assert_eq!(a.allocate_segment(1), Err(AllocFault::AlreadyAllocated));
}

#[test]
fn borrow_window_rounded_down_to_words() {
    let window = vec![0u8; 21];
    let mut a = CapnpBorrowAlloc::new_assert_zeroed(window);
    let seg = a.allocate_segment(2).unwrap();
    assert_eq!(seg.len(), 16);
}

#[test]
fn borrow_capacity_fault() {
    let window = vec![0u8; 16];
    let mut a = CapnpBorrowAlloc::new(window);
    assert_eq!(a.allocate_segment(3), Err(AllocFault::OutOfCapacity));
}

#[test]
fn into_builder_hands_out_whole_store() {
    let a: CapnpAlloc<24> = CapnpAlloc::new();
    let b = a.into_builder().unwrap();
    assert_eq!(b.capacity_bytes(), 24);
    assert_eq!(b.built_len(), 0);
    let w = vec![0u8; 20];
    let b = CapnpBorrowAlloc::new(w).into_builder().unwrap();
    assert_eq!(b.capacity_bytes(), 16);
}

#[test]
fn heap_allocate_twice_without_release_faults() {
    let mut a = CapnpHeapAlloc::new();
    let seg = a.allocate_segment(1).unwrap();
    // The watermark starts at 128 words: 1 KiB granted.
    assert_eq!(seg.len(), 1024);
    assert!(seg.iter().all(|&b| b == 0));
    assert_eq!(a.allocate_segment(1), Err(AllocFault::AlreadyAllocated));
    // Releasing resets the strategy and its watermark to the baseline.
    a.deallocate_segment(seg);
    let seg2 = a.allocate_segment(1).unwrap();
    assert_eq!(seg2.len(), 1024);
}

#[test]
fn heap_watermark_advances_across_grants() {
    let mut a = CapnpHeapAlloc::new();
    // A large request is granted exactly and advances the watermark.
    let seg = a.allocate_segment(200).unwrap();
    assert_eq!(seg.len(), 1600);
    a.deallocate_segment(seg);
    // After a release the watermark is back at the 1 KiB baseline.
    let seg = a.allocate_segment(1).unwrap();
    assert_eq!(seg.len(), 1024);
}
