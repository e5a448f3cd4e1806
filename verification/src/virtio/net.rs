//! VirtIO network device: features and configuration.
use vstd::prelude::*;
use crate::virtio::ring::{VirtQueue, lemma_chain_len};
use crate::virtio::layout::{
    driver_status_after, status_after, VirtqueueDescriptor, STATUS_ACKNOWLEDGE, STATUS_DRIVER, STATUS_FAILED,
    STATUS_FEATURES_OK, VIRTQ_DESC_F_WRITE,
};
use crate::gsi::{GsiInfo, GSI_COUNT};
use crate::ioapic::{RedirectionTableEntry, IrqMode, IrqFlags, init_open_entry};

verus! {

/// The VirtIO device id of network devices.
pub const VIRTIO_DEVICE_ID: u8 = 1;
/// Interrupt vector of the network device.
pub const VIRTIO_NET_IDT_VECTOR: u8 = 34;
/// Number of receive buffers.
pub const VIRTIO_NET_RX_BUFFERS: u64 = 256;

/// Feature: the device has a MAC address.
pub const VIRTIO_NET_F_MAC: u64 = 1 << 5;
/// Feature: the configuration status field is available.
pub const VIRTIO_NET_F_STATUS: u64 = 1 << 16;
/// Feature: the driver can receive TSO with ECN.
pub const VIRTIO_NET_F_GUEST_ECN: u64 = 1 << 9;
/// The features this driver supports.
pub const NET_DRIVER_SUPPORTED_FEATURES: u64 = VIRTIO_NET_F_MAC | VIRTIO_NET_F_STATUS;

/// The features the driver accepts of those a device offers.
pub fn negotiate_features(device_features: u64) -> (r: u64)
    ensures
        r == device_features & NET_DRIVER_SUPPORTED_FEATURES,
{
    device_features & NET_DRIVER_SUPPORTED_FEATURES
}

/// Device-specific data for the interrupt handler.
pub struct VirtioNetDevice {
    /// Base I/O port.
    pub io_base: u16,
    /// Global system interrupt number.
    pub gsi: u8,
    /// Interrupt vector.
    pub vector: u8,
}

/// The configuration of a VirtIO network device.
#[derive(Debug, Default)]
pub struct VirtioNetConfig {
    /// MAC address of the device.
    pub mac: [u8; 6],
    /// The status of the device.
    pub status: Option<u16>,
    /// The maximum number of queue pairs.
    pub max_virtqueue_pairs: Option<u16>,
    /// The maximum transmission unit.
    pub mtu: Option<u16>,
    /// The speed of the device.
    pub speed: Option<u32>,
    /// Whether the device sends and receives at once.
    pub duplex: Option<u8>,
    /// The maximum RSS key size.
    pub rss_max_key_size: Option<u8>,
    /// The maximum RSS indirection table length.
    pub rss_max_indirection_table_length: Option<u16>,
    /// The supported hash types.
    pub supported_hash_types: Option<u32>,
    /// The supported tunnel types.
    pub supported_tunnel_types: Option<u32>,
}

impl VirtioNetConfig {
    /// A configuration with MAC address `mac` and nothing else known.
    pub fn new(mac: [u8; 6]) -> (r: VirtioNetConfig)
        ensures
            r.mac == mac,
            r.status is None,
            r.max_virtqueue_pairs is None,
            r.mtu is None,
            r.speed is None,
            r.duplex is None,
            r.rss_max_key_size is None,
            r.rss_max_indirection_table_length is None,
            r.supported_hash_types is None,
            r.supported_tunnel_types is None,
    {
        Self {
            mac,
            status: None,
            max_virtqueue_pairs: None,
            mtu: None,
            speed: None,
            duplex: None,
            rss_max_key_size: None,
            rss_max_indirection_table_length: None,
            supported_hash_types: None,
            supported_tunnel_types: None,
        }
    }
}

/// The header that precedes every packet on a VirtIO network queue.
#[derive(Default)]
pub struct VirtioNetHeader {
    pub flags: u8,
    pub gso_type: u8,
    pub hdr_len: u16,
    pub gso_size: u16,
    pub csum_start: u16,
    pub csum_offset: u16,
}

/// Size in bytes of the header that precedes each packet.
pub const NET_HEADER_SIZE: usize = 10;
/// Size in bytes of a receive buffer: a full Ethernet frame and the header.
pub const RX_BUFFER_SIZE: usize = 1500 + NET_HEADER_SIZE;

/// A VirtIO network device as the driver knows it.
pub struct VirtioNet {
    /// Base I/O port of the device.
    pub io_base: usize,
    /// The packet header.
    pub header: VirtioNetHeader,
    /// The configuration of the device.
    pub config: VirtioNetConfig,
    /// The features negotiated with the device.
    pub negotiated_features: u64,
    /// The receive queue.
    pub rx_queue: Option<VirtQueue>,
    /// The transmit queue.
    pub tx_queue: Option<VirtQueue>,
    /// The control queue.
    pub ctrl_queue: Option<VirtQueue>,
}

impl VirtioNet {
    /// Makes a device from its parts.
    pub fn new(
        io_base: usize,
        header: VirtioNetHeader,
        config: VirtioNetConfig,
        nf: u64,
        rx: Option<VirtQueue>,
        tx: Option<VirtQueue>,
        ctrl: Option<VirtQueue>,
    ) -> (r: VirtioNet)
        ensures
            r.io_base == io_base && r.header == header && r.config == config,
            r.negotiated_features == nf,
            r.rx_queue == rx && r.tx_queue == tx && r.ctrl_queue == ctrl,
    {
        VirtioNet {
            io_base,
            header,
            config,
            negotiated_features: nf,
            rx_queue: rx,
            tx_queue: tx,
            ctrl_queue: ctrl,
        }
    }

    /// Sets status bits: the known status becomes `status_after` of it,
    /// and the byte written to the device status register is returned.
    pub fn set_driver_status(&mut self, status: u8) -> (r: u8)
        ensures
            final(self).config.status == Some(status_after(old(self).config.status, status)),
            r == status_after(old(self).config.status, status) as u8,
            final(self).io_base == old(self).io_base,
            final(self).negotiated_features == old(self).negotiated_features,
            final(self).config.mac == old(self).config.mac,
    {
        let new_status = driver_status_after(self.config.status, status);
        self.config.status = Some(new_status);
        new_status as u8
    }

    /// The device status, where the driver already knows it.
    pub fn driver_status(&self) -> (r: Option<u16>)
        ensures
            r == self.config.status,
    {
        self.config.status
    }

    /// Whether any of the bits of `status` is set in the known device
    /// status; `None` when the status is not known yet.
    pub fn has_status(&self, status: u8) -> (r: Option<bool>)
        ensures
            r == (match self.config.status {
                Some(c) => Some(c & (status as u16) != 0),
                None => None::<bool>,
            }),
    {
        match self.config.status {
            Some(c) => Some(c & (status as u16) != 0),
            None => None,
        }
    }

    /// The negotiated features, where there are any; `None` means they are
    /// to be read from the device.
    pub fn device_features(&self) -> (r: Option<u64>)
        ensures
            self.negotiated_features == 0 ==> r is None,
            self.negotiated_features != 0 ==> r == Some(self.negotiated_features),
    {
        if self.negotiated_features == 0 {
            None
        } else {
            Some(self.negotiated_features)
        }
    }

    /// Records the features the driver accepts; returns the value written
    /// to the driver features register.
    pub fn set_driver_features(&mut self, features: u64) -> (r: u64)
        ensures
            final(self).negotiated_features == features,
            r == features,
            final(self).config == old(self).config && final(self).io_base == old(self).io_base,
    {
        self.negotiated_features = features;
        features
    }

    /// The features the driver works with.
    pub fn supported_features(&self) -> (r: u64)
        ensures
            r == self.negotiated_features,
    {
        self.negotiated_features
    }
}

/// The register writes of feature negotiation: the status bytes in the
/// order they are written, and the features the driver accepts.
pub struct Negotiation {
    pub status_writes: Vec<u8>,
    pub driver_features: u64,
}

/// Negotiates features with a freshly probed device whose feature register
/// read `device_features`: the status is reset, then acknowledged with the
/// driver bit; the driver accepts the supported features the device offers
/// and sets `FEATURES_OK`. The device refuses the features when `FEATURES_OK`
/// is not set afterwards, which the driver checks on the status it knows
/// (so the check passes: the refusal is never reported here).
pub fn negotiate_device_features(net: &mut VirtioNet, device_features: u64) -> (r: Result<Negotiation, &'static str>)
    requires
        old(net).config.status is None,
    ensures
        r matches Ok(n) && n.status_writes@ == seq![0u8, 3u8, 11u8] && n.driver_features == device_features
            & NET_DRIVER_SUPPORTED_FEATURES,
        final(net).config.status == Some(11u16),
        final(net).negotiated_features == device_features & NET_DRIVER_SUPPORTED_FEATURES,
        final(net).io_base == old(net).io_base && final(net).config.mac == old(net).config.mac,
{
    assert((1u8 | 2u8) == 3u8 && (0u16 | 3u16) == 3u16 && (3u16 | 8u16) == 11u16 && 11u16 & 8u16 != 0)
        by (bit_vector);
    let mut writes: Vec<u8> = Vec::new();
    let w = net.set_driver_status(0);
    assert(net.config.status == Some(0u16));
    writes.push(w);
    let w = net.set_driver_status(STATUS_ACKNOWLEDGE | STATUS_DRIVER);
    assert(net.config.status == Some(3u16));
    writes.push(w);
    let driver_features = negotiate_features(device_features);
    let _ = net.set_driver_features(driver_features);
    let w = net.set_driver_status(STATUS_FEATURES_OK);
    assert(net.config.status == Some(11u16));
    writes.push(w);
    match net.has_status(STATUS_FEATURES_OK) {
        Some(true) => {},
        _ => {
            let w = net.set_driver_status(STATUS_FAILED);
            writes.push(w);
            return Err("device rejected features");
        },
    }
    Ok(Negotiation { status_writes: writes, driver_features })
}

/// Whether the status read back from the device has `DRIVER_OK` set.
pub fn driver_ok_confirmed(status_reg: u8) -> (r: bool)
    ensures
        r == (status_reg & 4 != 0),
{
    status_reg & 4 != 0
}

/// Whether the interrupt status register reports a queue interrupt (bit 0).
pub fn isr_has_queue_interrupt(isr: u8) -> (r: bool)
    ensures
        r == (isr & 1 != 0),
{
    isr & 1 != 0
}

/// The value written to the queue address register: the page number of
/// the queue memory.
pub fn queue_pfn(phys_addr: u64) -> (r: u32)
    ensures
        r == (phys_addr / 4096) as u32,
{
    assert(phys_addr >> 12u64 == phys_addr / 4096) by (bit_vector);
    (phys_addr >> 12) as u32
}

/// The frame put on the transmit queue for a packet: a zeroed header, then
/// the packet.
pub fn tx_frame(packet: &[u8]) -> (r: Vec<u8>)
    requires
        packet@.len() + NET_HEADER_SIZE <= usize::MAX,
    ensures
        r@ == Seq::new(NET_HEADER_SIZE as nat, |i: int| 0u8) + packet@,
{
    let mut out: Vec<u8> = Vec::new();
    let mut i: usize = 0;
    while i < NET_HEADER_SIZE
        invariant
            i <= NET_HEADER_SIZE,
            out@ == Seq::new(i as nat, |k: int| 0u8),
        decreases NET_HEADER_SIZE - i,
    {
        out.push(0);
        i = i + 1;
        assert(out@ =~= Seq::new(i as nat, |k: int| 0u8));
    }
    let mut j: usize = 0;
    while j < packet.len()
        invariant
            j <= packet@.len(),
            out@ == Seq::new(NET_HEADER_SIZE as nat, |k: int| 0u8) + packet@.take(j as int),
        decreases packet@.len() - j,
    {
        out.push(packet[j]);
        j = j + 1;
        assert(out@ =~= Seq::new(NET_HEADER_SIZE as nat, |k: int| 0u8) + packet@.take(j as int));
    }
    assert(packet@.take(packet@.len() as int) =~= packet@);
    out
}

/// Length of the packet in a received buffer of `len` bytes: what follows
/// the header, zero if the buffer is shorter than the header.
pub fn rx_packet_len(len: u32) -> (r: usize)
    ensures
        r == (if len >= NET_HEADER_SIZE { len - NET_HEADER_SIZE } else { 0 }),
{
    (len as usize).saturating_sub(NET_HEADER_SIZE)
}

/// The EtherType of an Ethernet frame (big-endian bytes 12 and 13), if the
/// frame has its full 14-byte header.
pub fn ethertype(frame: &[u8]) -> (r: Option<u16>)
    ensures
        frame@.len() < 14 ==> r is None,
        frame@.len() >= 14 ==> r == Some((frame@[12] * 256 + frame@[13]) as u16),
{
    if frame.len() >= 14 {
        Some((frame[12] as u16) * 256 + frame[13] as u16)
    } else {
        None
    }
}

/// `v` after storing `x` at `id`, first growing it with empty slots as far
/// as needed.
pub open spec fn stored_at<T>(v: Seq<Option<T>>, id: int, x: T) -> Seq<Option<T>> {
    if id < v.len() {
        v.update(id, Some(x))
    } else {
        (v + Seq::new((id - v.len()) as nat, |i: int| None::<T>)).push(Some(x))
    }
}

/// Remembers the buffer behind descriptor `desc_id` until the device is
/// done with it, growing the table with empty slots as far as needed.
pub fn record_inflight<T>(table: &mut Vec<Option<T>>, desc_id: u16, buf: T)
    ensures
        final(table)@ == stored_at(old(table)@, desc_id as int, buf),
{
    let ghost start = table@;
    let id = desc_id as usize;
    if id < table.len() {
        table.set(id, Some(buf));
    } else {
        while table.len() < id
            invariant
                start.len() <= table@.len() <= id,
                table@ == start + Seq::new((table@.len() - start.len()) as nat, |i: int| None::<T>),
            decreases id - table@.len(),
        {
            table.push(None);
            assert(table@ =~= start + Seq::new((table@.len() - start.len()) as nat, |i: int| None::<T>));
        }
        table.push(Some(buf));
    }
}

/// The table after the device completed the given descriptors: each
/// completed descriptor inside the table loses its buffer.
pub open spec fn completed<T>(v: Seq<Option<T>>, done: Seq<u16>) -> Seq<Option<T>>
    decreases done.len(),
{
    if done.len() == 0 {
        v
    } else {
        let w = completed(v, done.drop_last());
        let d = done.last() as int;
        if d < w.len() { w.update(d, None) } else { w }
    }
}

proof fn lemma_completed_len<T>(v: Seq<Option<T>>, done: Seq<u16>)
    ensures
        completed(v, done).len() == v.len(),
    decreases done.len(),
{
    if done.len() > 0 {
        lemma_completed_len(v, done.drop_last());
    }
}

/// Releases the buffers of the transmit descriptors the device completed.
pub fn complete_tx<T>(table: &mut Vec<Option<T>>, done: &Vec<u16>)
    ensures
        final(table)@ == completed(old(table)@, done@),
{
    let mut i: usize = 0;
    while i < done.len()
        invariant
            i <= done@.len(),
            table@ == completed(old(table)@, done@.take(i as int)),
        decreases done@.len() - i,
    {
        proof {
            assert(done@.take(i + 1).drop_last() =~= done@.take(i as int));
            lemma_completed_len(old(table)@, done@.take(i as int));
        }
        let d = done[i] as usize;
        if d < table.len() {
            table.set(d, None);
        }
        i = i + 1;
    }
    assert(done@.take(done@.len() as int) =~= done@);
}

/// The available ring after pushing `ids` in order from index `idx`.
pub open spec fn pushed(ring: Seq<u16>, idx: u16, size: u16, ids: Seq<u16>) -> Seq<u16>
    decreases ids.len(),
{
    if ids.len() == 0 {
        ring
    } else {
        let prev = pushed(ring, idx, size, ids.drop_last());
        prev.update((((idx + ids.len() - 1) % 0x10000) % (size as int)) as int, ids.last())
    }
}

/// Puts the receive buffers at the given addresses on the receive queue:
/// each takes a free descriptor as a device-written buffer of
/// `RX_BUFFER_SIZE` bytes and is made available. Returns the descriptors
/// used, in order.
pub fn prime_rx_queue(vq: &mut VirtQueue, buffers: &Vec<u64>) -> (r: Vec<u16>)
    requires
        old(vq).wf(),
        old(vq).size > 0,
        buffers@.len() <= old(vq).num_free,
    ensures
        final(vq).wf(),
        r@ == old(vq).free_chain().take(buffers@.len() as int),
        final(vq).free_chain() == old(vq).free_chain().skip(buffers@.len() as int),
        final(vq).num_free == old(vq).num_free - buffers@.len(),
        final(vq).avail_idx == (old(vq).avail_idx + buffers@.len()) % 0x10000,
        final(vq).avail_ring@ == pushed(old(vq).avail_ring@, old(vq).avail_idx, old(vq).size, r@),
        forall|k: int| 0 <= k < r@.len() ==> #[trigger] final(vq).desc@[r@[k] as int] == (VirtqueueDescriptor {
            addr: buffers@[k],
            len: RX_BUFFER_SIZE as u32,
            flags: 2,
            next: 0,
        }),
        final(vq).size == old(vq).size,
{
    let ghost c0 = vq.free_chain();
    proof {
        lemma_chain_len(vq.desc@, vq.free_head, vq.num_free as nat);
    }
    let mut ids: Vec<u16> = Vec::new();
    let mut i: usize = 0;
    while i < buffers.len()
        invariant
            vq.wf(),
            vq.size == old(vq).size,
            old(vq).size > 0,
            i <= buffers@.len(),
            buffers@.len() <= old(vq).num_free,
            c0 == old(vq).free_chain(),
            c0.len() == old(vq).num_free,
            ids@ == c0.take(i as int),
            vq.free_chain() == c0.skip(i as int),
            vq.num_free == old(vq).num_free - i,
            vq.avail_idx == (old(vq).avail_idx + i) % 0x10000,
            vq.avail_ring@ == pushed(old(vq).avail_ring@, old(vq).avail_idx, old(vq).size, ids@),
            forall|k: int| 0 <= k < i ==> #[trigger] vq.desc@[ids@[k] as int] == (VirtqueueDescriptor {
                addr: buffers@[k],
                len: RX_BUFFER_SIZE as u32,
                flags: 2,
                next: 0,
            }),
            c0.no_duplicates(),
            forall|k: int| 0 <= k < c0.len() ==> #[trigger] c0[k] < old(vq).size,
        decreases buffers@.len() - i,
    {
        let ghost before = vq.desc@;
        let ghost ids_before = ids@;
        let res = vq.add_descriptor(buffers[i], RX_BUFFER_SIZE as u32, true);
        match res {
            Ok(id) => {
                proof {
                    assert(id == c0[i as int]);
                    assert(vq.free_chain() =~= c0.skip(i + 1));
                    assert forall|k: int| 0 <= k < i implies ids@[k] != id by {
                        assert(ids@[k] == c0[k]);
                    }
                }
                vq.push_avail(id);
                ids.push(id);
                proof {
                    assert(ids@ =~= c0.take(i + 1));
                    assert(ids@.drop_last() =~= c0.take(i as int));
                    assert forall|k: int| 0 <= k < i + 1 implies #[trigger] vq.desc@[ids@[k] as int] == (VirtqueueDescriptor {
                        addr: buffers@[k],
                        len: RX_BUFFER_SIZE as u32,
                        flags: 2,
                        next: 0,
                    }) by {
                        if k < i {
                            assert(ids@[k] == ids_before[k]);
                            assert(ids_before[k] == c0[k]);
                            assert(c0[k] != c0[i as int]);
                            assert(before[ids_before[k] as int] == (VirtqueueDescriptor {
                                addr: buffers@[k],
                                len: RX_BUFFER_SIZE as u32,
                                flags: 2,
                                next: 0,
                            }));
                        } else {
                            assert(ids@[k] == id);
                            assert(VIRTQ_DESC_F_WRITE == 2);
                        }
                    }
                }
            },
            Err(_) => {
                proof {
                    assert(false);
                }
            },
        }
        i = i + 1;
    }
    ids
}

/// Marks a GSI as raised by the network device: its device, its handler and
/// the network vector are recorded, for a GSI below 256; others are left.
pub fn register_net_gsi(table: &mut Vec<GsiInfo>, gsi: usize, device_ptr: usize, handler: usize)
    requires
        old(table)@.len() == GSI_COUNT,
    ensures
        gsi < GSI_COUNT ==> final(table)@ == old(table)@.update(
            gsi as int,
            GsiInfo {
                device_ptr: Some(device_ptr),
                handler: Some(handler),
                vector: Some(VIRTIO_NET_IDT_VECTOR),
                ..old(table)@[gsi as int]
            },
        ),
        gsi >= GSI_COUNT ==> final(table)@ == old(table)@,
{
    if gsi < 256 {
        let cur = table[gsi];
        table.set(gsi, GsiInfo {
            device_ptr: Some(device_ptr),
            handler: Some(handler),
            vector: Some(VIRTIO_NET_IDT_VECTOR),
            ..cur
        });
    }
}

/// The redirection entry routing the network device's GSI: fixed delivery
/// of the network vector to the bootstrap processor, unmasked.
pub fn net_redirection_entry() -> (r: RedirectionTableEntry)
    ensures
        r == init_open_entry(VIRTIO_NET_IDT_VECTOR, 0),
{
    let mut entry = RedirectionTableEntry::default();
    entry.set_vector(VIRTIO_NET_IDT_VECTOR);
    entry.set_mode(IrqMode::Fixed);
    entry.set_dest(0);
    entry.set_flags(IrqFlags::empty());
    proof {
        lemma_net_entry();
    }
    entry
}

proof fn lemma_net_entry()
    by (bit_vector)
    ensures
        ((((0u32 & !0xffu32) | 34u32) & !0x700u32) | (0u32 << 8u32)) & !0x1A800u32 | (0u32 & !0x5000u32) == 34u32,
{
}

} // verus!
