use furnace_core::allocator::{default_block_sizes, is_power_of_two, list_index, Allocator, Dummy};
use std::mem::MaybeUninit;

fn heap_memory(size: usize) -> &'static mut [MaybeUninit<u8>] {
    Box::leak(vec![MaybeUninit::<u8>::uninit(); size].into_boxed_slice())
}

fn small_allocator() -> Allocator {
    let mut a = Allocator::with_block_sizes(vec![8, 16, 32]).unwrap();
    a.fallback_mut().init_from_slice(heap_memory(64 * 1024));
    a
}

#[test]
fn class_is_smallest_fitting_size() {
    let sizes = default_block_sizes();
    assert_eq!(list_index(&sizes, 12, 4), Some(1));
    assert_eq!(list_index(&sizes, 1, 1), Some(0));
    assert_eq!(list_index(&sizes, 8, 8), Some(0));
    assert_eq!(list_index(&sizes, 9, 1), Some(1));
    assert_eq!(list_index(&sizes, 4, 64), Some(3));
    assert_eq!(list_index(&sizes, 2048, 8), Some(8));
    assert_eq!(list_index(&sizes, 2049, 8), None);
    assert_eq!(list_index(&sizes, 8, 4096), None);
}

#[test]
fn class_is_the_same_for_the_same_request() {
    let sizes = default_block_sizes();
    for size in 0..2100usize {
        for align in [1usize, 2, 4, 8, 16, 64, 1024] {
            assert_eq!(list_index(&sizes, size, align), list_index(&sizes, size, align));
        }
    }
}

#[test]
fn block_size_tables_are_checked() {
    assert!(Allocator::with_block_sizes(vec![8, 16, 32]).is_some());
    assert!(Allocator::with_block_sizes(vec![]).is_none());
    assert!(Allocator::with_block_sizes(vec![4, 8]).is_none());
    assert!(Allocator::with_block_sizes(vec![8, 24]).is_none());
    assert!(Allocator::with_block_sizes(vec![16, 8]).is_none());
    assert!(Allocator::with_block_sizes(vec![8, 8]).is_none());
    assert!(is_power_of_two(1024));
    assert!(!is_power_of_two(0));
    assert!(!is_power_of_two(96));
}

#[test]
fn first_allocation_comes_from_fallback_then_free_list_is_reused() {
    let mut a = small_allocator();
    let p = a.allocate(12, 4).unwrap();
    assert_eq!(p % 16, 0);
    assert_eq!(a.used_heap(), 16);
    assert!(!a.deallocate(p, 12, 4));
    assert_eq!(a.used_heap(), 32);
    assert_eq!(a.allocate(12, 4), Some(p));
    assert_eq!(a.used_heap(), 16);
}

#[test]
fn same_class_reuses_freed_block() {
    let mut a = small_allocator();
    let p = a.allocate(20, 8).unwrap();
    assert_eq!(p % 32, 0);
    assert!(!a.deallocate(p, 20, 8));
    assert_eq!(a.allocate(32, 1), Some(p));
}

#[test]
fn free_lists_are_last_in_first_out() {
    let mut a = small_allocator();
    let b1 = a.allocate(16, 16).unwrap();
    let b2 = a.allocate(16, 16).unwrap();
    assert_ne!(b1, b2);
    assert!(!a.deallocate(b1, 16, 16));
    assert!(!a.deallocate(b2, 16, 16));
    assert_eq!(a.allocate(16, 16), Some(b2));
    assert_eq!(a.allocate(16, 16), Some(b1));
}

#[test]
fn used_heap_counts_class_blocks() {
    let mut a = small_allocator();
    for _ in 0..5 {
        assert!(a.allocate(32, 8).is_some());
    }
    assert_eq!(a.used_heap(), 5 * 32);
}

#[test]
fn used_heap_with_adds_free_list_bytes() {
    let mut a = Allocator::new();
    assert_eq!(a.used_heap_with(100), 100);
    assert!(!a.deallocate(4096, 100, 8));
    assert!(!a.deallocate(8192, 1, 1));
    assert_eq!(a.used_heap_with(100), 100 + 128 + 8);
    assert_eq!(a.used_heap_with(usize::MAX), usize::MAX);
}

#[test]
fn class_size_names_the_block_size() {
    let a = small_allocator();
    assert_eq!(a.class_size(12, 4), Some(16));
    assert_eq!(a.class_size(1, 32), Some(32));
    assert_eq!(a.class_size(33, 1), None);
}

#[test]
fn fallback_request_is_class_block_or_request() {
    let a = small_allocator();
    assert_eq!(a.fallback_request(12, 4), (16, 16));
    assert_eq!(a.fallback_request(1, 1), (8, 8));
    assert_eq!(a.fallback_request(100, 64), (100, 64));
}

#[test]
fn requests_beyond_the_fallback_fail() {
    let mut a = small_allocator();
    assert_eq!(a.allocate((1usize << 63) - 7, 1), None);
    assert_eq!(a.allocate(0, 1usize << 62), None);
    assert_eq!(a.allocate(usize::MAX, 8), None);
    assert!(a.allocate(12, 4).is_some());
}

#[test]
fn large_requests_go_to_fallback() {
    let mut a = small_allocator();
    let p = a.allocate(100, 64).unwrap();
    assert_eq!(p % 64, 0);
    assert!(a.deallocate(p, 100, 64));
}

#[test]
fn allocator_without_memory_fails() {
    let mut a = Allocator::new();
    assert_eq!(a.allocate(12, 4), None);
    assert_eq!(a.allocate(5000, 8), None);
    assert_eq!(Dummy.allocate(8, 8), None);
}
