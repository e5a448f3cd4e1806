use nullex::io_alloc::{IoAllocator, IoRange};

fn ranges(a: &IoAllocator) -> Vec<(u32, u32)> {
    a.free.iter().map(|r| (r.start, r.start + r.size)).collect()
}

const LEGACY_FREE: [(u32, u32); 16] = [
    (0x22, 0x40),
    (0x48, 0x60),
    (0x65, 0x70),
    (0x72, 0x80),
    (0x90, 0x92),
    (0x93, 0xA0),
    (0xA2, 0xC0),
    (0xE0, 0xE9),
    (0xEA, 0x170),
    (0x178, 0x1F0),
    (0x1F8, 0x278),
    (0x27B, 0x2F8),
    (0x300, 0x3B0),
    (0x3E0, 0x3F0),
    (0x400, 0xCF8),
    (0xD00, 0x10000),
];

#[test]
fn new_reserves_legacy_ports() {
    let a = IoAllocator::new(0, 0x10000);
    assert_eq!(ranges(&a), LEGACY_FREE.to_vec());
}

#[test]
fn allocate_takes_first_aligned_fit() {
    let mut a = IoAllocator::new(0, 0x10000);
    assert_eq!(a.allocate(0x20, 0x20), Some(0x100));
    let r = ranges(&a);
    assert!(r.contains(&(0xEA, 0x100)));
    assert!(r.contains(&(0x120, 0x170)));
    assert!(!r.iter().any(|&(s, e)| s < 0x120 && e > 0x100));
}

#[test]
fn allocate_rejects_zero_size_and_bad_alignment() {
    let mut a = IoAllocator::new(0, 0x10000);
    let before = ranges(&a);
    assert_eq!(a.allocate(0, 4), None);
    assert_eq!(a.allocate(4, 3), None);
    assert_eq!(a.allocate(4, 0), None);
    assert_eq!(ranges(&a), before);
}

#[test]
fn allocate_fails_when_nothing_fits() {
    let mut a = IoAllocator::new(0x1000, 0x10);
    assert_eq!(a.allocate(0x20, 1), None);
    assert_eq!(ranges(&a), vec![(0x1000, 0x1010)]);
}

#[test]
fn allocate_then_free_restores_free_list() {
    let mut a = IoAllocator::new(0, 0x10000);
    let before = ranges(&a);
    let base = a.allocate(0x40, 0x10).unwrap();
    a.free(base, 0x40);
    assert_eq!(ranges(&a), before);
}

#[test]
fn free_merges_neighbours() {
    let mut a = IoAllocator { free: vec![IoRange { start: 0x10, size: 0x10 }, IoRange { start: 0x30, size: 0x10 }] };
    a.free(0x20, 0x10);
    assert_eq!(ranges(&a), vec![(0x10, 0x40)]);
    a.free(0x50, 0x8);
    assert_eq!(ranges(&a), vec![(0x10, 0x40), (0x50, 0x58)]);
    a.free(0x0, 0x0);
    assert_eq!(ranges(&a), vec![(0x10, 0x40), (0x50, 0x58)]);
}

#[test]
fn reserve_splits_and_trims() {
    let mut a = IoAllocator::new(0x1000, 0x100);
    a.reserve(0x1010, 0x10);
    assert_eq!(ranges(&a), vec![(0x1000, 0x1010), (0x1020, 0x1100)]);
    a.reserve(0x10F0, 0x100);
    assert_eq!(ranges(&a), vec![(0x1000, 0x1010), (0x1020, 0x10F0)]);
    a.reserve(0x0F00, 0x108);
    assert_eq!(ranges(&a), vec![(0x1008, 0x1010), (0x1020, 0x10F0)]);
}

#[test]
fn range_end_wraps() {
    let r = IoRange { start: 0xFFFF_FFF0, size: 0x20 };
    assert_eq!(r.end(), 0x10);
    let r = IoRange { start: 0x100, size: 0x20 };
    assert_eq!(r.end(), 0x120);
}

#[test]
fn allocate_gives_lowest_aligned_free_block() {
    let mut a = IoAllocator {
        free: vec![IoRange { start: 0x1004, size: 0x8 }, IoRange { start: 0x1020, size: 0x40 }],
    };
    // 0x1000..0x1010 is not entirely free; 0x1020 is the lowest 16-aligned free block.
    assert_eq!(a.allocate(0x10, 0x10), Some(0x1020));
    assert_eq!(ranges(&a), vec![(0x1004, 0x100C), (0x1030, 0x1060)]);
    a.free(0x1020, 0x10);
    assert_eq!(ranges(&a), vec![(0x1004, 0x100C), (0x1020, 0x1060)]);
}

#[test]
fn allocate_large_alignment_below_two_gib() {
    let mut a = IoAllocator { free: vec![IoRange { start: 0x100, size: 0x7FFF_FF00 }] };
    assert_eq!(a.allocate(0x4000_0000, 0x8000_0000), None);
    assert_eq!(a.allocate(0x4000_0000, 0x4000_0000), Some(0x4000_0000));
    assert_eq!(ranges(&a), vec![(0x100, 0x4000_0000)]);
    a.free(0x4000_0000, 0x4000_0000);
    assert_eq!(ranges(&a), vec![(0x100, 0x8000_0000)]);
}
