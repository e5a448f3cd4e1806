use nullex::addr::VirtAddr;
use nullex::allocator::{
    align_up, heap_page_range, test_align_up_already_aligned, test_align_up_non_aligned, HeapRangeError, HEAP_SIZE,
    HEAP_START, MAX_HEAP_PAGES,
};
use nullex::buddy::{
    classify_area, get_largest_page_multiple, scan_step, BuddyAllocator, BuddyAllocatorManager,
    BuddyMemoryAreaRequest,
};

const S: u64 = 0x10_0000;

fn three_level() -> BuddyAllocator {
    BuddyAllocator {
        start_addr: S,
        end_addr: S + 4 * 4096,
        num_levels: 2,
        block_size: 4096,
        free_lists: vec![vec![0], vec![], vec![]],
    }
}

#[test]
fn buddy_new_has_one_block() {
    let b = BuddyAllocator::new(S, S + 16, 16);
    assert_eq!(b.num_levels, 0);
    assert_eq!(b.free_lists, vec![vec![0u32]]);
    assert_eq!(b.max_size(), 16);
    assert!(b.contains(S));
    assert!(b.contains(S + 15));
    assert!(!b.contains(S + 16));
}

#[test]
fn buddy_levels_for_sizes() {
    let b = three_level();
    assert_eq!(b.max_size(), 16384);
    assert_eq!(b.req_size_to_level(16384), Some(0));
    assert_eq!(b.req_size_to_level(8193), Some(0));
    assert_eq!(b.req_size_to_level(8192), Some(1));
    assert_eq!(b.req_size_to_level(4096), Some(2));
    assert_eq!(b.req_size_to_level(1), Some(2));
    assert_eq!(b.req_size_to_level(16385), None);
}

#[test]
fn buddy_splits_and_merges() {
    let mut b = three_level();
    assert_eq!(b.allocate(4096, 1), Some(S));
    assert_eq!(b.free_lists, vec![vec![], vec![1u32], vec![1u32]]);
    assert_eq!(b.allocate(100, 4096), Some(S + 4096));
    assert_eq!(b.allocate(8192, 8), Some(S + 8192));
    assert_eq!(b.allocate(4096, 1), None);
    assert_eq!(b.free_lists, vec![Vec::<u32>::new(), vec![], vec![]]);
    b.dealloc(S + 4096, 4096, 1);
    assert_eq!(b.free_lists, vec![vec![], vec![], vec![1u32]]);
    b.dealloc(S, 4096, 1);
    assert_eq!(b.free_lists, vec![vec![], vec![0u32], vec![]]);
    b.dealloc(S + 8192, 8192, 1);
    assert_eq!(b.free_lists, vec![vec![0u32], vec![], vec![]]);
    assert_eq!(b.allocate(16384, 1), Some(S));
}

#[test]
fn buddy_allocate_then_dealloc_restores_lists() {
    let mut b = three_level();
    let before = b.free_lists.clone();
    let a = b.allocate(4096, 4096).unwrap();
    b.dealloc(a, 4096, 4096);
    assert_eq!(b.free_lists, before);
}

#[test]
fn buddy_split_level_and_free_block() {
    let mut b = three_level();
    assert_eq!(b.split_level(0), None);
    assert_eq!(b.get_free_block(1), Some(0));
    assert_eq!(b.free_lists, vec![vec![], vec![1u32], vec![]]);
    b.free_lists[1].push(0);
    b.merge_buddies(1, 0);
    assert_eq!(b.free_lists, vec![vec![0u32], vec![], vec![]]);
}

#[test]
fn manager_tries_allocators_in_order() {
    let mut m = BuddyAllocatorManager::new();
    m.add_memory_area(S, S + 16, 16);
    m.add_memory_area(2 * S, 2 * S + 16, 16);
    assert_eq!(m.allocate(16, 1), Some((0, S)));
    assert_eq!(m.allocate(8, 8), Some((1, 2 * S)));
    assert_eq!(m.allocate(16, 1), None);
    assert_eq!(m.allocate(32, 1), None);
    assert_eq!(m.deallocate(2 * S, 16, 1), Some(1));
    assert_eq!(m.allocate(16, 1), Some((1, 2 * S)));
    assert_eq!(m.deallocate(3 * S, 16, 1), None);
}

#[test]
fn largest_page_multiple() {
    assert_eq!(get_largest_page_multiple(0x1000, 0x1000), None);
    assert_eq!(get_largest_page_multiple(0x1000, 0x1000 + 3 * 4096), Some((0x1000, 0x1000 + 8192)));
    assert_eq!(get_largest_page_multiple(0x1000, 0x1000 + 4 * 4096), Some((0x1000, 0x1000 + 16384)));
    assert_eq!(get_largest_page_multiple(0x1000, 0x1000 + 100), Some((0x1000, 0x1000 + 2048)));
}

#[test]
fn frame_scan_steps() {
    assert_eq!(scan_step(0x1000, 0x2000, Some(0x2000), 0x2000), (0x3000, false));
    assert_eq!(scan_step(0x1000, 0x2000, Some(0x2000), 0x3000), (0x3000, true));
    assert_eq!(scan_step(0x1000, 0x2000, Some(0x5000), 0x3000), (0x2000, false));
    assert_eq!(scan_step(0x1000, 0x2000, None, 0x3000), (0x2000, false));
}

#[test]
fn area_classification() {
    assert_eq!(classify_area(0x10000, 0x13000, 0x3000), BuddyMemoryAreaRequest::Success((0x10000, 0x13000)));
    assert_eq!(
        classify_area(0x10000, 0x13000, 0x4000),
        BuddyMemoryAreaRequest::SmallerThanReq((0x10000, 0x12000), Some((0x12000, 0x13000)))
    );
    assert_eq!(
        classify_area(0x10000, 0x12000, 0x4000),
        BuddyMemoryAreaRequest::SmallerThanReq((0x10000, 0x12000), None)
    );
}

#[test]
fn heap_pages() {
    assert_eq!(heap_page_range(HEAP_START, HEAP_SIZE), Ok((HEAP_START / 4096, (HEAP_START + HEAP_SIZE - 1) / 4096)));
    assert_eq!(heap_page_range(HEAP_START, 0), Err(HeapRangeError::EmptyHeap));
    assert_eq!(heap_page_range(HEAP_START + 1, 10), Err(HeapRangeError::UnalignedStart));
    assert_eq!(heap_page_range(0xFFFF_FFFF_FFFF_F000, 0x2000), Err(HeapRangeError::Overflow));
    assert_eq!(heap_page_range(0x0000_9000_0000_0000, 4096), Err(HeapRangeError::StartNotCanonical));
    assert_eq!(heap_page_range(0x0000_7FFF_FFFF_F000, 0x2000), Err(HeapRangeError::EndNotCanonical));
    assert_eq!(heap_page_range(0, (MAX_HEAP_PAGES + 1) * 4096), Err(HeapRangeError::TooLarge(MAX_HEAP_PAGES + 1)));
    assert_eq!(heap_page_range(0xFFFF_8000_0000_0000, 4096), Ok((0xFFFF_8000_0000_0000 / 4096, 0xFFFF_8000_0000_0000 / 4096)));
}

#[test]
fn align_up_values() {
    assert!(test_align_up_already_aligned().is_ok());
    assert!(test_align_up_non_aligned().is_ok());
    assert_eq!(align_up(0x1001, 0x1000), 0x2000);
    assert_eq!(align_up(0x2000, 0x1000), 0x2000);
    assert_eq!(align_up(5, 8), 8);
}

#[test]
fn virtual_addresses() {
    assert!(VirtAddr::try_new(0x7FFF_FFFF_FFFF).is_some());
    assert_eq!(VirtAddr::try_new(0x8000_0000_0000).map(|a| a.as_u64()), Some(0xFFFF_8000_0000_0000));
    assert_eq!(VirtAddr::try_new(0xFFFF_8000_0000_0000).map(|a| a.as_u64()), Some(0xFFFF_8000_0000_0000));
    assert!(VirtAddr::try_new(0x0001_8000_0000_0000).is_none());
    assert!(VirtAddr::try_new(0xFFFF_7FFF_FFFF_FFFF).is_none());
    let a = VirtAddr::new(0x1234_5678);
    assert_eq!(a.as_u64(), 0x1234_5678);
    assert_eq!(a.vpn(), 0x12345);
    assert!(a.is_canonical());
    let high = VirtAddr::new(0xFFFF_8000_0000_1000);
    assert!(high.is_canonical());
    assert_eq!(high.vpn(), 0x8_0000_0001);
}
