//! Helpers of the kernel heap allocator.
use vstd::prelude::*;

use crate::ioapic::TestError;

verus! {

/// Aligns `addr` upwards to `align`, which must be a power of two.
pub fn align_up(addr: usize, align: usize) -> (r: usize)
    requires
        align > 0,
        addr + align <= usize::MAX,
    ensures
        r == (addr + align - 1) as usize & !((align - 1) as usize),
        align & ((align - 1) as usize) == 0 ==> r & ((align - 1) as usize) == 0 && addr <= r && r
            < addr + align,
{
    let r = (addr + align - 1) & !(align - 1);
    proof {
        if align & ((align - 1) as usize) == 0 {
            lemma_align_up((addr + align - 1) as usize, (align - 1) as usize);
        }
    }
    r
}

proof fn lemma_align_up(s: usize, m: usize)
    by (bit_vector)
    ensures
        (s & !m) & m == 0,
        (s & !m) == s - (s & m),
        (s & m) <= m,
{
}

/// Virtual address at which the kernel heap starts.
pub const HEAP_START: u64 = 0x_4444_4444_0000;
/// Size in bytes of the kernel heap.
pub const HEAP_SIZE: u64 = 2 * 1024 * 1024;
/// The most pages the heap may span.
pub const MAX_HEAP_PAGES: u64 = 10 * 1024 * 1024;

/// Whether `x86_64::VirtAddr::try_new` accepts an address: bits 48 to 63
/// must repeat bit 47.
pub open spec fn x86_canonical(addr: u64) -> bool {
    addr < 0x0000_8000_0000_0000 || addr >= 0xFFFF_8000_0000_0000
}

/// Calls `x86_64::VirtAddr::try_new`, which accepts exactly the addresses
/// whose bits 48 to 63 are copies of bit 47.
#[verifier::external_body]
fn x86_virt_addr_valid(addr: u64) -> (r: bool)
    ensures
        r == x86_canonical(addr),
{
    x86_64::VirtAddr::try_new(addr).is_ok()
}

/// Calls `x86_64::structures::paging::Page::<Size4KiB>::containing_address`
/// on a canonical address and returns the page's start address: the address
/// with its low 12 bits cleared. `VirtAddr::new` panics on a non-canonical
/// address, which the precondition leaves out.
#[verifier::external_body]
fn x86_page_start(addr: u64) -> (r: u64)
    requires
        x86_canonical(addr),
    ensures
        r == addr - addr % 4096,
{
    x86_64::structures::paging::Page::<x86_64::structures::paging::Size4KiB>::containing_address(
        x86_64::VirtAddr::new(addr),
    ).start_address().as_u64()
}

/// Why the heap's pages cannot be worked out.
#[derive(Debug, Clone, Copy, PartialEq, Eq)]
pub enum HeapRangeError {
    /// The heap is empty.
    EmptyHeap,
    /// The heap does not start on a page boundary.
    UnalignedStart,
    /// The heap ends beyond the address space.
    Overflow,
    /// The heap's start address is not canonical.
    StartNotCanonical,
    /// The heap's last address is not canonical.
    EndNotCanonical,
    /// The heap spans more than the allowed number of pages.
    TooLarge(u64),
}

/// The pages the heap spans, as the first and last page numbers (addresses
/// divided by 4096), for a heap of `heap_size` bytes at `heap_start`.
///
/// Refused, in this order of checks: an empty heap, a start off a page
/// boundary, an end past the address space, a start or last byte that
/// is not a canonical address, and more than `MAX_HEAP_PAGES` pages.
pub fn heap_page_range(heap_start: u64, heap_size: u64) -> (r: Result<(u64, u64), HeapRangeError>)
    ensures
        ({
            let end = heap_start + heap_size - 1;
            let first = heap_start / 4096;
            let last = end / 4096;
            if heap_size == 0 {
                r == Err::<(u64, u64), HeapRangeError>(HeapRangeError::EmptyHeap)
            } else if heap_start % 4096 != 0 {
                r == Err::<(u64, u64), HeapRangeError>(HeapRangeError::UnalignedStart)
            } else if heap_start + heap_size > u64::MAX {
                r == Err::<(u64, u64), HeapRangeError>(HeapRangeError::Overflow)
            } else if !x86_canonical(heap_start) {
                r == Err::<(u64, u64), HeapRangeError>(HeapRangeError::StartNotCanonical)
            } else if !x86_canonical(end as u64) {
                r == Err::<(u64, u64), HeapRangeError>(HeapRangeError::EndNotCanonical)
            } else if last - first + 1 > MAX_HEAP_PAGES {
                r == Err::<(u64, u64), HeapRangeError>(HeapRangeError::TooLarge((last - first + 1) as u64))
            } else {
                r == Ok::<(u64, u64), HeapRangeError>((first as u64, last as u64))
            }
        }),
{
    if heap_size == 0 {
        return Err(HeapRangeError::EmptyHeap);
    }
    if heap_start % 4096 != 0 {
        return Err(HeapRangeError::UnalignedStart);
    }
    let heap_end = match heap_start.checked_add(heap_size) {
        Some(v) => v - 1,
        None => return Err(HeapRangeError::Overflow),
    };
    if !x86_virt_addr_valid(heap_start) {
        return Err(HeapRangeError::StartNotCanonical);
    }
    if !x86_virt_addr_valid(heap_end) {
        return Err(HeapRangeError::EndNotCanonical);
    }
    let start_index = x86_page_start(heap_start) / 4096;
    let end_index = x86_page_start(heap_end) / 4096;
    let num_pages = end_index - start_index + 1;
    if num_pages > MAX_HEAP_PAGES {
        return Err(HeapRangeError::TooLarge(num_pages));
    }
    Ok((start_index, end_index))
}

/// Self test: an aligned address stays where it is.
pub fn test_align_up_already_aligned() -> (r: Result<(), TestError>)
    ensures
        r is Ok,
{
    let a = 0x1000usize;
    let aligned = align_up(a, 0x1000);
    assert(0x1fffusize & !0xfffusize == 0x1000usize) by (bit_vector);
    if aligned != 0x1000 {
        return Err(TestError::Error);
    }
    Ok(())
}

/// Self test: an unaligned address moves up to the next boundary.
pub fn test_align_up_non_aligned() -> (r: Result<(), TestError>)
    ensures
        r is Ok,
{
    let a = 0x1001usize;
    let aligned = align_up(a, 0x1000);
    assert(0x2000usize & !0xfffusize == 0x2000usize) by (bit_vector);
    if aligned != 0x2000 {
        return Err(TestError::Error);
    }
    Ok(())
}

} // verus!
