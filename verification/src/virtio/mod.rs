//! VirtIO devices: virtqueue layout, device status and network device
//! configuration.
pub mod layout;
pub mod net;
pub mod net_config;
pub mod notification;
pub mod device;
pub mod ring;
pub mod virtqueue;
