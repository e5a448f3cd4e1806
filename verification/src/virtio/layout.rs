//! Memory layout of a split virtqueue and the VirtIO device status.
use vstd::prelude::*;

verus! {

/// Descriptor flag: the buffer continues in the `next` descriptor.
pub const VIRTQ_DESC_F_NEXT: u16 = 1;
/// Descriptor flag: the device writes the buffer.
pub const VIRTQ_DESC_F_WRITE: u16 = 2;

/// Device status bit: the guest found the device.
pub const STATUS_ACKNOWLEDGE: u8 = 1;
/// Device status bit: the guest knows how to drive the device.
pub const STATUS_DRIVER: u8 = 2;
/// Device status bit: the driver is ready.
pub const STATUS_DRIVER_OK: u8 = 4;
/// Device status bit: feature negotiation is complete.
pub const STATUS_FEATURES_OK: u8 = 8;
/// Device status bit: the device needs a reset.
pub const STATUS_DEVICE_NEEDS_RESET: u8 = 64;
/// Device status bit: the driver gave up on the device.
pub const STATUS_FAILED: u8 = 128;

/// Size in bytes of a virtqueue descriptor.
pub const DESCRIPTOR_SIZE: usize = 16;
/// Size in bytes of the available ring header (flags and index).
pub const AVAILABLE_HEADER_SIZE: usize = 4;
/// Size in bytes of the used ring header (flags and index).
pub const USED_HEADER_SIZE: usize = 4;
/// Size in bytes of a used ring element.
pub const USED_ELEMENT_SIZE: usize = 8;

/// A virtqueue descriptor.
#[derive(Clone, Copy)]
pub struct VirtqueueDescriptor {
    /// Guest-physical address of the buffer.
    pub addr: u64,
    /// Length of the buffer.
    pub len: u32,
    /// Descriptor flags.
    pub flags: u16,
    /// Next descriptor of a chain.
    pub next: u16,
}

/// The header of the available ring.
#[derive(Default)]
pub struct VirtqueueAvailable {
    pub flags: u16,
    pub idx: u16,
}

/// An element of the used ring.
#[derive(Default)]
pub struct VirtqueueUsedElement {
    pub id: u32,
    pub len: u32,
}

/// The header of the used ring.
#[derive(Default)]
pub struct VirtqueueUsed {
    pub flags: u16,
    pub idx: u16,
}

/// What `x86_64::align_up` returns: `addr` if it is aligned, else the next
/// multiple of `align` above it.
pub open spec fn align_up_spec(addr: u64, align: u64) -> u64 {
    if addr & ((align - 1) as u64) == 0 {
        addr
    } else {
        ((addr | ((align - 1) as u64)) + 1) as u64
    }
}

/// Calls `x86_64::align_up`, which returns the smallest multiple of the
/// power of two `align` at or above `addr`, computed as `align_up_spec`
/// states; it panics if `align` is no power of two or the result overflows.
#[verifier::external_body]
fn x86_align_up(addr: u64, align: u64) -> (r: u64)
    requires
        align != 0,
        align & ((align - 1) as u64) == 0,
        addr & ((align - 1) as u64) != 0 ==> (addr | ((align - 1) as u64)) < u64::MAX,
    ensures
        r == align_up_spec(addr, align),
{
    x86_64::align_up(addr, align)
}

/// Total size in bytes of a split virtqueue of `qsize` descriptors: the
/// descriptor table and the available ring, padded to a 4 KiB page, then the
/// used ring.
pub open spec fn virtqueue_size_spec(qsize: usize) -> int {
    align_up_spec((qsize * DESCRIPTOR_SIZE + AVAILABLE_HEADER_SIZE + qsize * 2) as u64, 4096) + (
    USED_HEADER_SIZE + qsize * USED_ELEMENT_SIZE)
}

/// Total size in bytes of a split virtqueue of `qsize` descriptors.
pub fn virtqueue_size(qsize: usize) -> (r: usize)
    requires
        qsize <= 0x10000,
    ensures
        r == virtqueue_size_spec(qsize),
{
    let desc_size = qsize * DESCRIPTOR_SIZE;
    let avail_size = AVAILABLE_HEADER_SIZE + qsize * 2;
    let used_size = USED_HEADER_SIZE + qsize * USED_ELEMENT_SIZE;
    let unaligned = (desc_size + avail_size) as u64;
    proof {
        lemma_align_bound(unaligned);
    }
    let used_offset = x86_align_up(unaligned, 4096);
    (used_offset + used_size as u64) as usize
}

/// Offset in bytes of the used ring in the memory of a queue of `qsize`
/// descriptors: the descriptor table and the available ring, padded to a
/// 4 KiB page.
pub fn used_ring_offset(qsize: usize) -> (r: usize)
    requires
        qsize <= 0x10000,
    ensures
        r == align_up_spec((qsize * DESCRIPTOR_SIZE + AVAILABLE_HEADER_SIZE + qsize * 2) as u64, 4096),
{
    let unaligned = (qsize * DESCRIPTOR_SIZE + AVAILABLE_HEADER_SIZE + qsize * 2) as u64;
    proof {
        lemma_align_bound(unaligned);
    }
    x86_align_up(unaligned, 4096) as usize
}

/// Bytes of queue memory to allocate for a queue of the size the device
/// reports; refused when the device reports no queue.
pub fn queue_memory_size(queue_size: u16) -> (r: Result<usize, &'static str>)
    ensures
        queue_size == 0 ==> r is Err,
        queue_size != 0 ==> r == Ok::<usize, &'static str>(virtqueue_size_spec(queue_size as usize) as usize),
{
    if queue_size == 0 {
        return Err("queue not available");
    }
    Ok(virtqueue_size(queue_size as usize))
}

proof fn lemma_align_bound(x: u64)
    by (bit_vector)
    requires
        x <= 0x200000,
    ensures
        4096u64 & 4095u64 == 0,
        (x | 4095u64) < u64::MAX,
        (x | 4095u64) + 1 <= 0x201000,
{
}

/// The device status a driver writes when it sets status bits `status` on
/// a device whose status it knows to be `current`: the bits are added to
/// it, since a driver never clears a status bit.
pub open spec fn status_after(current: Option<u16>, status: u8) -> u16 {
    match current {
        Some(c) => c | (status as u16),
        None => status as u16,
    }
}

/// The device status to write when setting status bits `status` over the
/// known status `current`.
pub fn driver_status_after(current: Option<u16>, status: u8) -> (r: u16)
    ensures
        r == status_after(current, status),
{
    match current {
        Some(c) => c | (status as u16),
        None => status as u16,
    }
}

} // verus!
