use nullex::ata::{ata_device_select, ata_sector_bytes, ata_status, AtaStatus, ATA_WAIT_TRIES};
use nullex::buddy::{BuddyAllocatorManager, BuddyMemoryAreaRequest};
use nullex::ext2::{
    AlgorithmBitmap, CompatibleFeatures, CompatibleReadOnlyFeatures, Ext2BlockGroupDescriptor, Ext2Inode,
    Ext2Superblock, IncompatibleFeatures, EXT2_SUPER_MAGIC,
};
use nullex::keyboard::queue::{ScancodeStream, SCANCODE_QUEUE_CAPACITY};
use nullex::uspi::devicenameservice::{DeviceKind, DeviceRegistry};
use nullex::virtio::device::{VirtIODevice, VirtIODeviceTrait, VirtIODriver};

#[test]
fn scancodes_come_out_in_order() {
    let mut s = ScancodeStream::new();
    assert_eq!(s.next_scancode(), None);
    assert!(s.add_scancode(0x1E));
    assert!(s.add_scancode(0x9E));
    assert!(s.add_scancode(0x30));
    assert_eq!(s.next_scancode(), Some(0x1E));
    assert_eq!(s.next_scancode(), Some(0x9E));
    assert!(s.add_scancode(0x31));
    assert_eq!(s.next_scancode(), Some(0x30));
    assert_eq!(s.next_scancode(), Some(0x31));
    assert_eq!(s.next_scancode(), None);
}

#[test]
fn full_scancode_queue_drops_input() {
    let mut s = ScancodeStream::default();
    for i in 0..SCANCODE_QUEUE_CAPACITY {
        assert!(s.add_scancode(i as u8));
    }
    assert!(!s.add_scancode(0xFF));
    for i in 0..SCANCODE_QUEUE_CAPACITY {
        assert_eq!(s.next_scancode(), Some(i as u8));
    }
    assert_eq!(s.next_scancode(), None);
}

fn superblock_bytes(magic: u16, rev: u32, log_block: u32) -> Vec<u8> {
    let mut b = vec![0u8; 1024];
    b[0..4].copy_from_slice(&128u32.to_le_bytes());
    b[4..8].copy_from_slice(&1024u32.to_le_bytes());
    b[24..28].copy_from_slice(&log_block.to_le_bytes());
    b[56..58].copy_from_slice(&magic.to_le_bytes());
    b[76..80].copy_from_slice(&rev.to_le_bytes());
    b[88..90].copy_from_slice(&256u16.to_le_bytes());
    b[104..120].copy_from_slice(&[7u8; 16]);
    b[120..126].copy_from_slice(b"rootfs");
    b[236..240].copy_from_slice(&0xDEAD_BEEFu32.to_le_bytes());
    b[260..264].copy_from_slice(&9u32.to_le_bytes());
    b
}

#[test]
fn ext2_superblock_fields() {
    let s = Ext2Superblock::from_bytes(&superblock_bytes(EXT2_SUPER_MAGIC, 1, 2)).unwrap();
    assert_eq!(s.inode_count, 128);
    assert_eq!(s.block_count, 1024);
    assert_eq!(s.magic, 0xEF53);
    assert_eq!(s.inode_size, 256);
    assert_eq!(s.uuid, [7u8; 16]);
    assert_eq!(&s.volume_name[..6], b"rootfs");
    assert_eq!(s.hash_seed[0], 0xDEAD_BEEF);
    assert_eq!(s.first_meta_bg, 9);
    assert_eq!(s.block_size(), 4096);
    assert_eq!(s.validate(), Ok(()));
    assert!(Ext2Superblock::from_bytes(&[0u8; 1023]).is_none());
}

#[test]
fn ext2_superblock_validation_errors() {
    let bad_magic = Ext2Superblock::from_bytes(&superblock_bytes(0x1234, 0, 0)).unwrap();
    assert_eq!(bad_magic.validate(), Err("Invalid EXT2 magic"));
    let bad_rev = Ext2Superblock::from_bytes(&superblock_bytes(EXT2_SUPER_MAGIC, 2, 0)).unwrap();
    assert_eq!(bad_rev.validate(), Err("Unsupported EXT2 revision"));
    assert_eq!(bad_rev.block_size(), 1024);
}

#[test]
fn ext2_group_descriptor_and_inode() {
    let mut g = vec![0u8; 32];
    g[0..4].copy_from_slice(&3u32.to_le_bytes());
    g[8..12].copy_from_slice(&5u32.to_le_bytes());
    g[12..14].copy_from_slice(&100u16.to_le_bytes());
    let d = Ext2BlockGroupDescriptor::from_bytes(&g).unwrap();
    assert_eq!(d.block_bitmap, 3);
    assert_eq!(d.inode_table, 5);
    assert_eq!(d.free_blocks_count, 100);
    assert!(Ext2BlockGroupDescriptor::from_bytes(&g[..31]).is_none());

    let mut n = vec![0u8; 128];
    n[0..2].copy_from_slice(&0x81A4u16.to_le_bytes());
    n[4..8].copy_from_slice(&4242u32.to_le_bytes());
    for i in 0..15u32 {
        let off = 40 + 4 * i as usize;
        n[off..off + 4].copy_from_slice(&(1000 + i).to_le_bytes());
    }
    let inode = Ext2Inode::from_bytes(&n).unwrap();
    assert_eq!(inode.mode, 0x81A4);
    assert_eq!(inode.size, 4242);
    assert_eq!(inode.block[0], 1000);
    assert_eq!(inode.block[14], 1014);
    assert!(Ext2Inode::from_bytes(&n[..100]).is_none());
}

#[test]
fn ext2_feature_bits() {
    assert_eq!(CompatibleFeatures::Ext3FeatureCompatHasJournal.bits(), 0x4);
    assert_eq!(IncompatibleFeatures::Ext2FeatureIncompatFiletype.bits(), 0x2);
    assert_eq!(CompatibleReadOnlyFeatures::Ext2FeatureRoCompatBtreeDir.bits(), 0x4);
    assert_eq!(AlgorithmBitmap::Ext2LzoAlg.bits(), 0x10);
}

#[test]
fn memory_area_from_contiguous_frames() {
    let frames = vec![0x10000u64, 0x11000, 0x12000, 0x13000];
    let mut pos = 0usize;
    assert_eq!(
        BuddyAllocatorManager::get_memory_area_with_size(&frames, &mut pos, 0x3000),
        BuddyMemoryAreaRequest::Success((0x10000, 0x13000))
    );
    assert_eq!(pos, 3);
    assert_eq!(
        BuddyAllocatorManager::get_memory_area_with_size(&frames, &mut pos, 0x3000),
        BuddyMemoryAreaRequest::SmallerThanReq((0x13000, 0x14000), None)
    );
    assert_eq!(pos, 4);
    assert_eq!(BuddyAllocatorManager::get_memory_area_with_size(&frames, &mut pos, 0x3000), BuddyMemoryAreaRequest::Fail);
    assert_eq!(pos, 4);
}

#[test]
fn memory_area_scan_loses_the_breaking_frame() {
    let frames = vec![0x10000u64, 0x11000, 0x20000, 0x21000];
    let mut pos = 0usize;
    assert_eq!(
        BuddyAllocatorManager::get_memory_area_with_size(&frames, &mut pos, 0x4000),
        BuddyMemoryAreaRequest::SmallerThanReq((0x10000, 0x12000), None)
    );
    assert_eq!(pos, 3);
}

#[test]
fn memory_areas_added_until_size_found() {
    let frames = vec![0x10000u64, 0x11000, 0x12000, 0x20000, 0x30000, 0x31000];
    let mut m = BuddyAllocatorManager::new();
    let mut pos = 0usize;
    assert!(m.add_memory_area_with_size(&frames, &mut pos, 0x2000, 16));
    assert_eq!(pos, 2);
    assert_eq!(m.buddy_allocators.len(), 1);
    assert_eq!((m.buddy_allocators[0].start_addr, m.buddy_allocators[0].end_addr), (0x10000, 0x12000));

    let mut m = BuddyAllocatorManager::new();
    let mut pos = 0usize;
    assert!(!m.add_memory_area_with_size(&frames, &mut pos, 0x10000, 16));
    assert_eq!(pos, frames.len());
    let areas: Vec<(u64, u64)> = m.buddy_allocators.iter().map(|a| (a.start_addr, a.end_addr)).collect();
    assert_eq!(areas, vec![(0x10000, 0x12000), (0x12000, 0x13000), (0x30000, 0x32000)]);
}

#[test]
fn device_registry_lookup() {
    let mut r = DeviceRegistry::new();
    let name = |s: &str| s.chars().collect::<Vec<char>>();
    r.add(name("umsd1"), 0x100, DeviceKind::Block);
    r.add(name("ukbd1"), 0x200, DeviceKind::NonBlock);
    r.add(name("umsd1"), 0x300, DeviceKind::Block);
    assert_eq!(r.get(&name("umsd1"), DeviceKind::Block), Some(0x100));
    assert_eq!(r.get(&name("ukbd1"), DeviceKind::NonBlock), Some(0x200));
    assert_eq!(r.get(&name("ukbd1"), DeviceKind::Block), None);
    assert_eq!(r.get(&name("nope"), DeviceKind::Block), None);
}

#[test]
fn virtio_device_state() {
    let mut d = VirtIODevice {
        offered_features: 0x21,
        device_status: 7,
        configuration_space: 0xF0F0,
        virtqueues: Vec::new(),
        can_send_notifs: true,
    };
    d.init();
    assert!(d.has_feature(0x1));
    assert!(!d.has_feature(0x2));
    assert_eq!(d.get_config_generation(), 0xF0F0);
    assert_eq!(d.read_config_field(0xFF), Some(0xF0));
    d.offered_features |= 0x8;
    assert_eq!(d.read_config_field(0xFF), None);
    d.reset();
    assert_eq!(d.device_status, 0);
    assert!(!d.can_send_notifs);
    let drv = VirtIODriver { device_status: 0, virtqueues: Vec::new(), negotiated_features: 0x30 };
    assert!(drv.has_feature(0x10));
    assert!(!drv.has_feature(0x1));
}

#[test]
fn ata_status_reading() {
    assert_eq!(ata_status(0x80), AtaStatus::Busy);
    assert_eq!(ata_status(0x81), AtaStatus::Busy);
    assert_eq!(ata_status(0x01), AtaStatus::DriveError);
    assert_eq!(ata_status(0x20), AtaStatus::DriveError);
    assert_eq!(ata_status(0x40), AtaStatus::Ready);
    assert_eq!(ata_status(0x00), AtaStatus::Ready);
    assert_eq!(ATA_WAIT_TRIES, 100_000);
}

#[test]
fn ata_device_select_byte() {
    assert_eq!(ata_device_select(0), 0xF0);
    assert_eq!(ata_device_select(0x0A00_0000), 0xFA);
    assert_eq!(ata_device_select(0xFFFF_FFFF), 0xFF);
    assert_eq!(ata_device_select(0x00FF_FFFF), 0xF0);
}

#[test]
fn ata_sector_words_low_byte_first() {
    let mut words = [0u16; 256];
    words[0] = 0x1234;
    words[255] = 0xABCD;
    let bytes = ata_sector_bytes(&words);
    assert_eq!(bytes[0], 0x34);
    assert_eq!(bytes[1], 0x12);
    assert_eq!(bytes[2], 0);
    assert_eq!(bytes[510], 0xCD);
    assert_eq!(bytes[511], 0xAB);
}
