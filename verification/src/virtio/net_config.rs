//! The configuration space of a VirtIO network device.
use vstd::prelude::*;

verus! {

/// Status bit: the link is up.
pub const VIRTIO_NET_S_LINK_UP: u16 = 1;
/// Status bit: the driver should announce itself.
pub const VIRTIO_NET_S_ANNOUNCE: u16 = 2;

/// The configuration of a VirtIO network device; optional fields exist only
/// when the matching feature was negotiated.
pub struct VirtIONetConfig {
    /// MAC address of the device (valid with `VIRTIO_NET_F_MAC`).
    pub mac: [u8; 6],
    /// Status of the device (with `VIRTIO_NET_F_STATUS`).
    pub status: Option<u16>,
    /// Maximum number of transmit and receive queue pairs.
    max_virtqueue_pairs: Option<u16>,
    /// Maximum MTU for the driver to use.
    mtu: Option<u16>,
    /// Device speed in MBit/s.
    pub speed: Option<u32>,
    /// Duplex state: 1 full, 0 half, 0xFF unknown.
    pub duplex: Option<u8>,
    /// Maximum length of an RSS key in bytes.
    pub rss_max_key_size: Option<u8>,
    /// Maximum number of entries in the RSS indirection table.
    pub rss_max_indirection_table_length: Option<u16>,
    /// Supported hash types.
    pub supported_hash_types: Option<u32>,
    /// Supported encapsulation types for inner header hash.
    pub supported_tunnel_types: Option<u32>,
}

impl VirtIONetConfig {
    /// The maximum number of queue pairs.
    pub closed spec fn max_virtqueue_pairs_spec(&self) -> Option<u16> {
        self.max_virtqueue_pairs
    }

    /// The maximum transmission unit.
    pub closed spec fn mtu_spec(&self) -> Option<u16> {
        self.mtu
    }

    /// Gets the read-only maximum number of queue pairs.
    pub fn get_max_virtqueue_pairs(&self) -> (r: Option<u16>)
        ensures
            r == self.max_virtqueue_pairs_spec(),
    {
        self.max_virtqueue_pairs
    }

    /// Gets the read-only maximum transmission unit.
    pub fn get_mtu(&self) -> (r: Option<u16>)
        ensures
            r == self.mtu_spec(),
    {
        self.mtu
    }
}

} // verus!
