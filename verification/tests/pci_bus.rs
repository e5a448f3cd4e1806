use nullex::io_alloc::{IoAllocator, IoRange};
use nullex::pci::{
    add_pci_device, bind_device, device_info, function_present, is_multifunction, pci_config_address,
    pci_config_field, pci_enable_command, pci_enable_io_bar, pci_find_index_from_gsi, probe_candidates,
    register_driver, Bdf, DriverInfo, PciDevice, VIRTIO_PCI_VENDOR_ID,
};

fn device(vendor: u16, dev: u16, class_reg: u16) -> PciDevice {
    PciDevice::new_raw(Bdf::new(0, 3, 0), device_info(vendor, dev, class_reg), None, None, None, None)
}

fn driver(vendor: Option<u16>, dev: Option<u16>, class: Option<u8>, probe: Option<usize>) -> DriverInfo {
    DriverInfo { vendor, device: dev, class, subclass: None, probe }
}

#[test]
fn device_information_from_registers() {
    let i = device_info(0x1AF4, 0x1000, 0x0200);
    assert_eq!(i.vendor, Some(0x1AF4));
    assert_eq!(i.device, Some(0x1000));
    assert_eq!(i.class, Some(0x02));
    assert_eq!(i.subclass, Some(0x00));
    assert_eq!(i.probe, None);
}

#[test]
fn driver_matching() {
    let d = device(VIRTIO_PCI_VENDOR_ID, 0x1000, 0x0200);
    assert!(nullex::pci::matches(&driver(Some(VIRTIO_PCI_VENDOR_ID), Some(0x1000), None, Some(0)), &d));
    assert!(nullex::pci::matches(&driver(None, None, Some(0x02), None), &d));
    assert!(!nullex::pci::matches(&driver(Some(0x8086), None, None, Some(0)), &d));
    assert!(!nullex::pci::matches(&driver(Some(VIRTIO_PCI_VENDOR_ID), Some(0x1001), None, Some(0)), &d));
}

#[test]
fn probe_candidates_in_table_order() {
    let mut drivers = Vec::new();
    register_driver(&mut drivers, driver(Some(0x8086), None, None, Some(0)));
    register_driver(&mut drivers, driver(Some(VIRTIO_PCI_VENDOR_ID), None, None, Some(1)));
    register_driver(&mut drivers, driver(None, None, Some(0x02), None));
    register_driver(&mut drivers, driver(None, None, Some(0x02), Some(2)));
    let mut devices = Vec::new();
    assert_eq!(add_pci_device(&mut devices, device(VIRTIO_PCI_VENDOR_ID, 0x1000, 0x0200)), 0);
    assert_eq!(add_pci_device(&mut devices, device(0x8086, 0x100E, 0x0200)), 1);
    assert_eq!(probe_candidates(&drivers, &devices, 0), vec![1, 3]);
    assert_eq!(probe_candidates(&drivers, &devices, 1), vec![0, 3]);
    assert!(probe_candidates(&drivers, &devices, 2).is_empty());
    assert!(probe_candidates(&Vec::new(), &devices, 0).is_empty());
    bind_device(&mut devices, 0, 5);
    assert_eq!(devices[0].bound_driver, Some(5));
    assert_eq!(devices[1].bound_driver, None);
    assert!(probe_candidates(&drivers, &devices, 0).is_empty());
}

#[test]
fn device_by_interrupt_line() {
    let lines = vec![11u8, 10, 11];
    assert_eq!(pci_find_index_from_gsi(&lines, 11), Some(0));
    assert_eq!(pci_find_index_from_gsi(&lines, 10), Some(1));
    assert_eq!(pci_find_index_from_gsi(&lines, 9), None);
}

#[test]
fn configuration_space_access() {
    let bdf = Bdf::new(1, 2, 3);
    assert_eq!(pci_config_address(bdf, 0x0E), 0x8001_1300 | 0x0C);
    assert_eq!(pci_config_address(Bdf::new(0, 0, 0), 0x3C), 0x8000_003C);
    let data: u32 = 0xAABB_CCDD;
    assert_eq!(pci_config_field(data, 0, 2), 0xCCDD);
    assert_eq!(pci_config_field(data, 2, 2), 0xAABB);
    assert_eq!(pci_config_field(data, 1, 1), 0xCC);
    assert_eq!(pci_config_field(data, 0, 4), 0xAABB_CCDD);
    assert_eq!(pci_config_field(data, 0, 8), 0xAABB_CCDD);
    assert_eq!(pci_enable_command(0x0400), 0x0405);
    assert!(function_present(0x8086));
    assert!(!function_present(0xFFFF));
    assert!(is_multifunction(0x0080));
    assert!(!is_multifunction(0x0000));
}

#[test]
fn io_bar_from_allocator() {
    let mut alloc = IoAllocator { free: vec![IoRange { start: 0xC010, size: 0x1000 }] };
    let mut dev = device(VIRTIO_PCI_VENDOR_ID, 0x1000, 0x0200);
    let r = pci_enable_io_bar(&mut dev, &mut alloc, 0, 0xFFFF_FFE1);
    assert_eq!(r, Ok(Some(0xC021)));
    assert_eq!(dev.io_base, Some(0xC020));
    assert_eq!(dev.io_size, Some(0x20));
    let free: Vec<(u32, u32)> = alloc.free.iter().map(|r| (r.start, r.size)).collect();
    assert_eq!(free, vec![(0xC010, 0x10), (0xC040, 0xFD0)]);
}

#[test]
fn io_bar_already_assigned() {
    let mut alloc = IoAllocator { free: vec![IoRange { start: 0xC000, size: 0x100 }] };
    let mut dev = device(VIRTIO_PCI_VENDOR_ID, 0x1000, 0x0200);
    let r = pci_enable_io_bar(&mut dev, &mut alloc, 0xC041, 0xFFFF_FFC1);
    assert_eq!(r, Ok(None));
    assert_eq!(dev.io_base, Some(0xC040));
    assert_eq!(dev.io_size, Some(0x40));
    let free: Vec<(u32, u32)> = alloc.free.iter().map(|r| (r.start, r.size)).collect();
    assert_eq!(free, vec![(0xC000, 0x40), (0xC080, 0x80)]);
}

#[test]
fn io_bar_errors() {
    let mut alloc = IoAllocator { free: vec![IoRange { start: 0xC000, size: 0x10 }] };
    let mut dev = device(VIRTIO_PCI_VENDOR_ID, 0x1000, 0x0200);
    assert_eq!(pci_enable_io_bar(&mut dev, &mut alloc, 0, 0x0000_0001), Err("I/O Bar Size == 0"));
    assert_eq!(pci_enable_io_bar(&mut dev, &mut alloc, 0, 0xFFFF_FF01), Err("Unable to allocate I/O ports"));
    assert_eq!(dev.io_base, None);
}
