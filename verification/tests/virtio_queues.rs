use nullex::gsi::{GsiInfo, GSI_COUNT};
use nullex::ioapic::IrqMode;
use nullex::virtio::layout::{
    driver_status_after, queue_memory_size, used_ring_offset, virtqueue_size, VirtqueueUsedElement, STATUS_ACKNOWLEDGE,
    STATUS_DRIVER, STATUS_FAILED, VIRTQ_DESC_F_WRITE,
};
use nullex::virtio::net::{
    complete_tx, driver_ok_confirmed, ethertype, isr_has_queue_interrupt, negotiate_features, net_redirection_entry,
    prime_rx_queue, queue_pfn, record_inflight, register_net_gsi, rx_packet_len, tx_frame, VirtioNet, VirtioNetConfig,
    VirtioNetHeader, NET_DRIVER_SUPPORTED_FEATURES, RX_BUFFER_SIZE, VIRTIO_NET_IDT_VECTOR,
};
use nullex::virtio::notification::{Notification, NotificationType};
use nullex::virtio::ring::VirtQueue;
use nullex::virtio::virtqueue::{test_virtqueue_buffer_overflow, test_virtqueue_buffer_power_of_two, SplitVirtQueue};

#[test]
fn virtqueue_self_tests_pass() {
    assert!(test_virtqueue_buffer_overflow().is_ok());
    assert!(test_virtqueue_buffer_power_of_two().is_ok());
}

#[test]
fn split_queue_sizes() {
    let q = SplitVirtQueue::new(256).unwrap();
    assert_eq!(q.descriptor_table.value, 4096);
    assert_eq!(q.available_ring.value, 6 + 512);
    assert_eq!(q.used_ring.value, 6 + 2048);
    assert_eq!(SplitVirtQueue::new(40000).err(), Some("queue_size must be less than or equal to 32768."));
    assert_eq!(SplitVirtQueue::new(100).err(), Some("queue_size must be a power of 2."));
}

#[test]
fn queue_memory_layout() {
    assert_eq!(virtqueue_size(256), 8192 + 4 + 256 * 8);
    assert_eq!(used_ring_offset(256), 8192);
    assert_eq!(used_ring_offset(8), 4096);
    assert_eq!(virtqueue_size(8), 4096 + 4 + 64);
    assert_eq!(queue_memory_size(256), Ok(10244));
    assert!(queue_memory_size(0).is_err());
}

#[test]
fn status_bits() {
    assert_eq!(driver_status_after(None, STATUS_ACKNOWLEDGE), 1);
    assert_eq!(driver_status_after(Some(1), STATUS_DRIVER), 3);
    assert_eq!(driver_status_after(Some(7), STATUS_FAILED), 0x87);
    assert_eq!(driver_status_after(Some(3), STATUS_FAILED), 0x83);
    assert_eq!(driver_status_after(None, STATUS_FAILED), 0x80);
    let mut dev = VirtioNet::new(0xC000, VirtioNetHeader::default(), VirtioNetConfig::new([1, 2, 3, 4, 5, 6]), 0, None, None, None);
    assert_eq!(dev.driver_status(), None);
    assert_eq!(dev.has_status(STATUS_DRIVER), None);
    assert_eq!(dev.set_driver_status(STATUS_ACKNOWLEDGE), 1);
    assert_eq!(dev.set_driver_status(STATUS_DRIVER), 3);
    assert_eq!(dev.has_status(STATUS_DRIVER), Some(true));
    assert_eq!(dev.has_status(8), Some(false));
    assert_eq!(dev.device_features(), None);
    assert_eq!(dev.set_driver_features(0x20), 0x20);
    assert_eq!(dev.device_features(), Some(0x20));
    assert_eq!(dev.supported_features(), 0x20);
    assert_eq!(dev.config.mac, [1, 2, 3, 4, 5, 6]);
}

#[test]
fn feature_negotiation() {
    assert_eq!(negotiate_features(u64::MAX), NET_DRIVER_SUPPORTED_FEATURES);
    assert_eq!(negotiate_features(1 << 5), 1 << 5);
    assert_eq!(negotiate_features(1 << 9), 0);
}

#[test]
fn register_values() {
    assert!(driver_ok_confirmed(0x0F));
    assert!(!driver_ok_confirmed(0x0B));
    assert!(isr_has_queue_interrupt(3));
    assert!(!isr_has_queue_interrupt(2));
    assert_eq!(queue_pfn(0x12_3456_7000), 0x12_3456_7);
}

#[test]
fn frames() {
    let f = tx_frame(&[0xAA, 0xBB]);
    assert_eq!(f, vec![0, 0, 0, 0, 0, 0, 0, 0, 0, 0, 0xAA, 0xBB]);
    assert_eq!(rx_packet_len(1510), 1500);
    assert_eq!(rx_packet_len(4), 0);
    let mut eth = vec![0u8; 14];
    eth[12] = 0x08;
    eth[13] = 0x06;
    assert_eq!(ethertype(&eth), Some(0x0806));
    assert_eq!(ethertype(&eth[..13]), None);
}

#[test]
fn ring_take_and_give_back() {
    let mut q = VirtQueue::new(4, 0x1000, 0x2000, 1, 0xC000);
    assert_eq!(q.num_free, 4);
    assert_eq!(q.add_descriptor(0x5000, 100, true), Ok(0));
    assert_eq!(q.desc[0].addr, 0x5000);
    assert_eq!(q.desc[0].len, 100);
    assert_eq!(q.desc[0].flags, VIRTQ_DESC_F_WRITE);
    assert_eq!(q.add_descriptor(0x6000, 10, false), Ok(1));
    assert_eq!(q.desc[1].flags, 0);
    assert_eq!(q.num_free, 2);
    q.free_descriptor(0);
    assert_eq!(q.free_head, 0);
    assert_eq!(q.num_free, 3);
    assert_eq!(q.add_descriptor(0x7000, 1, false), Ok(0));
    assert_eq!(q.add_descriptor(0x7000, 1, false), Ok(2));
    assert_eq!(q.add_descriptor(0x7000, 1, false), Ok(3));
    assert!(q.add_descriptor(0x7000, 1, false).is_err());
    assert_eq!(q.num_free, 0);
}

#[test]
fn ring_available_and_used() {
    let mut q = VirtQueue::new(2, 0, 0, 3, 0xC000);
    q.push_avail(1);
    q.push_avail(0);
    q.push_avail(1);
    assert_eq!(q.avail_idx, 3);
    assert_eq!(q.avail_ring, vec![1, 0]);
    assert_eq!(q.kick(), (0xC010, 3));
    let used = [VirtqueueUsedElement { id: 1, len: 60 }, VirtqueueUsedElement { id: 0, len: 70 }];
    assert_eq!(q.pop_used(0, &used), None);
    assert_eq!(q.pop_used(2, &used), Some((1, 60)));
    assert_eq!(q.pop_used(2, &used), Some((0, 70)));
    assert_eq!(q.pop_used(2, &used), None);
    assert_eq!(q.last_used, 2);
    let e = VirtQueue::empty();
    assert_eq!(e.size, 0);
}

#[test]
fn receive_queue_priming() {
    let mut q = VirtQueue::new(4, 0, 0, 0, 0xC000);
    let ids = prime_rx_queue(&mut q, &vec![0x10000, 0x20000, 0x30000]);
    assert_eq!(ids, vec![0, 1, 2]);
    assert_eq!(q.num_free, 1);
    assert_eq!(q.avail_idx, 3);
    assert_eq!(&q.avail_ring[..3], &[0, 1, 2]);
    assert_eq!(q.desc[1].addr, 0x20000);
    assert_eq!(q.desc[1].len as usize, RX_BUFFER_SIZE);
    assert_eq!(q.desc[1].flags, VIRTQ_DESC_F_WRITE);
}

#[test]
fn inflight_buffers() {
    let mut t: Vec<Option<u32>> = Vec::new();
    record_inflight(&mut t, 2, 7);
    assert_eq!(t, vec![None, None, Some(7)]);
    record_inflight(&mut t, 0, 5);
    assert_eq!(t, vec![Some(5), None, Some(7)]);
    complete_tx(&mut t, &vec![2, 9]);
    assert_eq!(t, vec![Some(5), None, None]);
}

#[test]
fn network_interrupt_routing() {
    let mut table = vec![GsiInfo::default(); GSI_COUNT];
    register_net_gsi(&mut table, 11, 0xAB, 0xCD);
    assert_eq!(table[11].device_ptr, Some(0xAB));
    assert_eq!(table[11].handler, Some(0xCD));
    assert_eq!(table[11].vector, Some(VIRTIO_NET_IDT_VECTOR));
    register_net_gsi(&mut table, 300, 1, 1);
    assert_eq!(table.iter().filter(|g| g.handler.is_some()).count(), 1);
    let e = net_redirection_entry();
    assert_eq!(e.vector(), VIRTIO_NET_IDT_VECTOR);
    assert_eq!(e.mode(), IrqMode::Fixed);
    assert!(!e.mask());
    assert_eq!(e.dest(), 0);
}

#[test]
fn notifications() {
    let n = Notification::new(NotificationType::UsedBufferNotification);
    assert_eq!(n.0, NotificationType::UsedBufferNotification);
}

#[test]
fn feature_negotiation_sequence() {
    let mut dev = VirtioNet::new(0xC000, VirtioNetHeader::default(), VirtioNetConfig::new([0; 6]), 0, None, None, None);
    let n = nullex::virtio::net::negotiate_device_features(&mut dev, u64::MAX).ok().unwrap();
    assert_eq!(n.status_writes, vec![0, 3, 11]);
    assert_eq!(n.driver_features, NET_DRIVER_SUPPORTED_FEATURES);
    assert_eq!(dev.driver_status(), Some(11));
    assert_eq!(dev.supported_features(), NET_DRIVER_SUPPORTED_FEATURES);
}
