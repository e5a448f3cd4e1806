//! PCI devices: matching devices with drivers, and enabling a device's I/O
//! BAR with ports from the I/O port allocator.
//!
//! Configuration space accesses are port I/O and are made by the caller; the
//! functions here take the values read and say what to write.
use vstd::prelude::*;

use crate::io_alloc::{
    aligned_start, carve, covers, first_fit, fits, in_block, is_pow2, ranges_wf, reserve_seq, room_for,
    wadd, IoAllocator, IoRange,
};

verus! {

/// Virtio PCI vendor id.
pub const VIRTIO_PCI_VENDOR_ID: u16 = 0x1af4;
/// Intel PCI vendor id.
pub const INTEL_VENDOR_ID: u16 = 0x8086;
/// Command register bit: respond to I/O space accesses.
pub const PCI_COMMAND_IO: u16 = 0x0001;
/// Command register bit: bus master.
pub const PCI_BUS_MASTER: u16 = 0x0004;

/// Bus, device and function number of a PCI function.
#[derive(Debug, Clone, Copy, PartialEq, Eq, Structural)]
pub struct Bdf {
    /// The bus of the PCI device.
    pub bus: u8,
    /// The device on the bus.
    pub device: u8,
    /// The function of the device.
    pub func: u8,
}

impl Bdf {
    /// The function `func` of device `device` on bus `bus`.
    pub fn new(bus: u8, device: u8, func: u8) -> (r: Bdf)
        ensures
            r.bus == bus && r.device == device && r.func == func,
    {
        Self { bus, device, func }
    }
}

/// What a driver drives, or what a device is: each field that is `Some`
/// must match. `probe` names the driver's probe routine, if it has one.
#[derive(Debug, Clone, Copy)]
pub struct DriverInfo {
    /// Vendor id.
    pub vendor: Option<u16>,
    /// Device id.
    pub device: Option<u16>,
    /// Class code.
    pub class: Option<u8>,
    /// Subclass code.
    pub subclass: Option<u8>,
    /// Number of the driver's probe routine in the caller's table of probes.
    pub probe: Option<usize>,
}

/// A discovered PCI device.
pub struct PciDevice {
    /// Bus, device and function of the device.
    pub bdf: Bdf,
    pub info: DriverInfo,
    pub bound_driver: Option<usize>,
    pub mmio_base: Option<usize>,
    /// The base I/O port of the device.
    pub io_base: Option<usize>,
    pub io_size: Option<usize>,
}

impl PciDevice {
    /// A device record made of the given parts, unchecked.
    pub fn new_raw(
        bdf: Bdf,
        info: DriverInfo,
        bound_driver: Option<usize>,
        mmio_base: Option<usize>,
        io_base: Option<usize>,
        io_size: Option<usize>,
    ) -> (r: Self)
        ensures
            r.bdf == bdf,
            r.info == info,
            r.bound_driver == bound_driver,
            r.mmio_base == mmio_base,
            r.io_base == io_base,
            r.io_size == io_size,
    {
        Self { bdf, info, bound_driver, mmio_base, io_base, io_size }
    }
}

/// The description of a function found at `bdf` from its configuration
/// registers: vendor, device id, and the class register (class in the high
/// byte, subclass in the low byte).
pub fn device_info(vendor: u16, device: u16, class_reg: u16) -> (r: DriverInfo)
    ensures
        r.vendor == Some(vendor),
        r.device == Some(device),
        r.class == Some((class_reg >> 8u16) as u8),
        r.subclass == Some((class_reg & 0xFF) as u8),
        r.probe is None,
{
    DriverInfo {
        vendor: Some(vendor),
        device: Some(device),
        class: Some((class_reg >> 8) as u8),
        subclass: Some((class_reg & 0xFF) as u8),
        probe: None,
    }
}

/// A field that the driver requires matches the device's.
pub open spec fn field_matches<T>(want: Option<T>, have: Option<T>) -> bool {
    want matches Some(w) ==> have == Some(w)
}

/// The driver `info` accepts the device.
pub open spec fn matches_spec(info: DriverInfo, dev_info: DriverInfo) -> bool {
    &&& field_matches(info.vendor, dev_info.vendor)
    &&& field_matches(info.device, dev_info.device)
    &&& field_matches(info.class, dev_info.class)
    &&& field_matches(info.subclass, dev_info.subclass)
}

/// A driver accepts a device exactly when every field the driver names
/// (vendor, device, class, subclass) equals the device's; a field the
/// driver leaves open accepts anything.
pub proof fn lemma_match_named_fields(info: DriverInfo, dev_info: DriverInfo)
    ensures
        matches_spec(info, dev_info) <==> {
            &&& info.vendor is Some ==> dev_info.vendor == info.vendor
            &&& info.device is Some ==> dev_info.device == info.device
            &&& info.class is Some ==> dev_info.class == info.class
            &&& info.subclass is Some ==> dev_info.subclass == info.subclass
        },
{
}

/// The device has every field that the driver asks about (matching fails
/// loudly otherwise).
pub open spec fn describes(info: DriverInfo, dev_info: DriverInfo) -> bool {
    &&& info.vendor is Some ==> dev_info.vendor is Some
    &&& info.device is Some ==> dev_info.device is Some
    &&& info.class is Some ==> dev_info.class is Some
    &&& info.subclass is Some ==> dev_info.subclass is Some
}

/// Whether driver `info` accepts device `dev`: every field the driver
/// names must equal the device's.
pub fn matches(info: &DriverInfo, dev: &PciDevice) -> (r: bool)
    requires
        describes(*info, dev.info),
    ensures
        r == matches_spec(*info, dev.info),
{
    if let Some(v) = info.vendor {
        if v != dev.info.vendor.unwrap() {
            return false;
        }
    }
    if let Some(d) = info.device {
        if d != dev.info.device.unwrap() {
            return false;
        }
    }
    if let Some(c) = info.class {
        if c != dev.info.class.unwrap() {
            return false;
        }
    }
    if let Some(s) = info.subclass {
        if s != dev.info.subclass.unwrap() {
            return false;
        }
    }
    true
}

/// Registers a driver in the driver table.
pub fn register_driver(table: &mut Vec<DriverInfo>, info: DriverInfo)
    ensures
        final(table)@ == old(table)@.push(info),
{
    table.push(info);
}

/// Adds a device to the device table; gives its index.
pub fn add_pci_device(devices: &mut Vec<PciDevice>, dev: PciDevice) -> (idx: usize)
    ensures
        final(devices)@ == old(devices)@.push(dev),
        idx == old(devices)@.len(),
{
    let idx = devices.len();
    devices.push(dev);
    idx
}

/// The drivers to probe for device `idx`, in table order: none when the
/// table is empty, the index is out of range or the device is bound already;
/// else every driver that accepts the device and has a probe routine.
pub fn probe_candidates(drivers: &Vec<DriverInfo>, devices: &Vec<PciDevice>, idx: usize) -> (r: Vec<
    usize,
>)
    requires
        idx < devices@.len() ==> forall|i: int|
            0 <= i < drivers@.len() ==> describes(#[trigger] drivers@[i], devices@[idx as int].info),
    ensures
        (drivers@.len() == 0 || idx >= devices@.len() || devices@[idx as int].bound_driver is Some)
            ==> r@.len() == 0,
        !(drivers@.len() == 0 || idx >= devices@.len() || devices@[idx as int].bound_driver is Some)
            ==> {
            &&& forall|k: int|
                0 <= k < r@.len() ==> r@[k] < drivers@.len() && matches_spec(
                    drivers@[#[trigger] r@[k] as int],
                    devices@[idx as int].info,
                ) && drivers@[r@[k] as int].probe is Some
            &&& forall|k: int, l: int| 0 <= k < l < r@.len() ==> #[trigger] r@[k] < #[trigger] r@[l]
            &&& forall|i: int|
                0 <= i < drivers@.len() && matches_spec(#[trigger] drivers@[i], devices@[idx as int].info)
                    && drivers@[i].probe is Some ==> r@.contains(i as usize)
        },
{
    let mut r: Vec<usize> = Vec::new();
    if drivers.len() == 0 || idx >= devices.len() {
        return r;
    }
    let dev = &devices[idx];
    if dev.bound_driver.is_some() {
        return r;
    }
    let mut i: usize = 0;
    while i < drivers.len()
        invariant
            i <= drivers@.len(),
            *dev == devices@[idx as int],
            forall|j: int| 0 <= j < drivers@.len() ==> describes(#[trigger] drivers@[j], dev.info),
            forall|k: int|
                0 <= k < r@.len() ==> r@[k] < i && matches_spec(
                    drivers@[#[trigger] r@[k] as int],
                    dev.info,
                ) && drivers@[r@[k] as int].probe is Some,
            forall|k: int, l: int| 0 <= k < l < r@.len() ==> #[trigger] r@[k] < #[trigger] r@[l],
            forall|j: int|
                0 <= j < i && matches_spec(#[trigger] drivers@[j], dev.info) && drivers@[j].probe is Some
                    ==> r@.contains(j as usize),
        decreases drivers@.len() - i,
    {
        let info = &drivers[i];
        if matches(info, dev) && info.probe.is_some() {
            let ghost before = r@;
            r.push(i);
            proof {
                assert forall|j: int|
                    0 <= j < i + 1 && matches_spec(#[trigger] drivers@[j], dev.info)
                        && drivers@[j].probe is Some implies r@.contains(j as usize) by {
                    if j < i {
                        let k = choose|k: int| 0 <= k < before.len() && before[k] == j as usize;
                        assert(r@[k] == j as usize);
                    } else {
                        assert(r@[before.len() as int] == j as usize);
                    }
                }
            }
        }
        i += 1;
    }
    r
}

/// Records that device `idx` is bound to driver instance `instance`.
pub fn bind_device(devices: &mut Vec<PciDevice>, idx: usize, instance: usize)
    requires
        idx < old(devices)@.len(),
    ensures
        final(devices)@.len() == old(devices)@.len(),
        final(devices)@[idx as int].bound_driver == Some(instance),
        final(devices)@[idx as int].bdf == old(devices)@[idx as int].bdf,
        final(devices)@[idx as int].info == old(devices)@[idx as int].info,
        final(devices)@[idx as int].io_base == old(devices)@[idx as int].io_base,
        final(devices)@[idx as int].io_size == old(devices)@[idx as int].io_size,
        final(devices)@[idx as int].mmio_base == old(devices)@[idx as int].mmio_base,
        forall|j: int| 0 <= j < old(devices)@.len() && j != idx ==> final(devices)@[j] == old(devices)@[j],
{
    devices[idx].bound_driver = Some(instance);
}

/// The index of the first device whose interrupt line is `gsi`, given the
/// interrupt lines of the devices in order.
pub fn pci_find_index_from_gsi(interrupt_lines: &Vec<u8>, gsi: usize) -> (r: Option<usize>)
    ensures
        r matches Some(i) ==> i < interrupt_lines@.len() && interrupt_lines@[i as int] as usize == gsi
            && forall|j: int| 0 <= j < i ==> interrupt_lines@[j] as usize != gsi,
        r is None ==> forall|j: int|
            0 <= j < interrupt_lines@.len() ==> interrupt_lines@[j] as usize != gsi,
{
    let mut idx: usize = 0;
    while idx < interrupt_lines.len()
        invariant
            idx <= interrupt_lines@.len(),
            forall|j: int| 0 <= j < idx ==> interrupt_lines@[j] as usize != gsi,
        decreases interrupt_lines@.len() - idx,
    {
        if interrupt_lines[idx] as usize == gsi {
            return Some(idx);
        }
        idx += 1;
    }
    None
}

/// The size of the I/O range that a BAR decodes, from the value read back
/// after writing all ones: the two's complement of the address bits.
pub open spec fn io_bar_size(mask: u32) -> u32 {
    let size_mask = mask & !3u32;
    wadd(!size_mask, 1)
}

/// What enabling the I/O BAR of `dev` does, given the value the BAR held
/// `orig` and the value `mask` read after writing all ones: an I/O BAR of
/// size zero is refused; an assigned base is reserved; an unassigned BAR
/// gets ports from the allocator, aligned to their size, and the value to
/// write back into the BAR is returned; it is refused only when the size is
/// not a power of two or no free range holds such an aligned block.
pub fn pci_enable_io_bar(dev: &mut PciDevice, io_alloc: &mut IoAllocator, orig: u32, mask: u32) -> (r:
    Result<Option<u32>, &'static str>)
    requires
        mask & 1 == 1,
    ensures
        io_bar_size(mask) == 0 ==> r == Err::<Option<u32>, &'static str>("I/O Bar Size == 0")
            && *final(dev) == *old(dev) && final(io_alloc).free@ == old(io_alloc).free@,
        io_bar_size(mask) != 0 && orig & !3u32 != 0 ==> {
            &&& r == Ok::<Option<u32>, &'static str>(None)
            &&& final(io_alloc).free@ == reserve_seq(
                old(io_alloc).free@,
                orig & !3u32,
                wadd(orig & !3u32, io_bar_size(mask)),
            )
            &&& final(dev).io_base == Some((orig & !3u32) as usize)
            &&& final(dev).io_size == Some(io_bar_size(mask) as usize)
        },
        io_bar_size(mask) != 0 && orig & !3u32 == 0 ==> match r {
            Ok(Some(bar)) => exists|base: u32|
                {
                    &&& #[trigger] final(dev).io_base == Some(base as usize)
                    &&& final(dev).io_size == Some(io_bar_size(mask) as usize)
                    &&& bar == (base & !3u32) | 1
                    &&& base & ((io_bar_size(mask) - 1) as u32) == 0
                    &&& exists|i: int|
                        #[trigger] first_fit(old(io_alloc).free@, io_bar_size(mask), io_bar_size(mask), i)
                            && base == aligned_start(old(io_alloc).free@[i].start, io_bar_size(mask))
                            && final(io_alloc).free@ == carve(
                            old(io_alloc).free@,
                            i,
                            base,
                            io_bar_size(mask),
                        )
                },
            Ok(None) => false,
            Err(e) => e == "Unable to allocate I/O ports" && *final(dev) == *old(dev)
                && final(io_alloc).free@ == old(io_alloc).free@ && (is_pow2(io_bar_size(mask)) ==> forall|j: int|
                0 <= j < old(io_alloc).free@.len() ==> !fits(
                    #[trigger] old(io_alloc).free@[j],
                    io_bar_size(mask),
                    io_bar_size(mask),
                )),
        },
        final(dev).bdf == old(dev).bdf && final(dev).info == old(dev).info && final(dev).bound_driver
            == old(dev).bound_driver,
{
    let size_mask = mask & !0x3u32;
    let size = (!size_mask).wrapping_add(1);
    if size == 0 {
        return Err("I/O Bar Size == 0");
    }
    let assigned_base = orig & !0x3u32;
    if assigned_base != 0 {
        io_alloc.reserve(assigned_base, size);
        dev.io_base = Some(assigned_base as usize);
        dev.io_size = Some(size as usize);
        Ok(None)
    } else {
        match io_alloc.allocate(size, size) {
            Some(base) => {
                if (base & (size - 1)) != 0 {
                    io_alloc.free(base, size);
                    return Err("allocator returned misaligned I/O base");
                }
                dev.io_base = Some(base as usize);
                dev.io_size = Some(size as usize);
                let to_write = (base & !0x3u32) | 0x1u32;
                Ok(Some(to_write))
            },
            None => Err("Unable to allocate I/O ports"),
        }
    }
}

/// The value written to the configuration address port to reach the
/// register at `offset` of function `bdf`: enable bit, bus, device,
/// function and the dword-aligned offset.
pub open spec fn config_address_spec(bdf: Bdf, offset: u8) -> u32 {
    ((bdf.bus as u32) << 16u32) | ((bdf.device as u32) << 11u32) | ((bdf.func as u32) << 8u32) | ((
    offset as u32) & 0xFCu32) | 0x8000_0000u32
}

/// The value written to the configuration address port for a register.
pub fn pci_config_address(bdf: Bdf, offset: u8) -> (r: u32)
    ensures
        r == config_address_spec(bdf, offset),
{
    let lbus = bdf.bus as u32;
    let lslot = bdf.device as u32;
    let lfunc = bdf.func as u32;
    (lbus << 16) | (lslot << 11) | (lfunc << 8) | ((offset as u32) & 0xFC) | 0x8000_0000u32
}

/// The field of `bytes` bytes (1, 2, 4 or 8) at `offset` within the dword
/// read from the configuration data port.
pub fn pci_config_field(data: u32, offset: u8, bytes: u64) -> (r: u64)
    requires
        bytes == 1 || bytes == 2 || bytes == 4 || bytes == 8,
    ensures
        r == ((data as u64) >> (((offset as u64) & 3) * 8)) & (if bytes == 8 {
            0xFFFF_FFFF_FFFF_FFFFu64
        } else {
            ((1u64 << (bytes * 8) as u64) - 1) as u64
        }),
{
    assert((offset as u64) & 3 <= 3) by (bit_vector);
    let shift = ((offset as u64) & 3) * 8;
    let bits = bytes * 8;
    let mask = if bits == 64 {
        !0u64
    } else {
        assert(1u64 << bits >= 1) by (bit_vector)
            requires
                bits == 8 || bits == 16 || bits == 32,
        ;
        (1u64 << bits) - 1u64
    };
    assert(!0u64 == 0xFFFF_FFFF_FFFF_FFFFu64) by (bit_vector);
    ((data as u64) >> shift) & mask
}

/// The command register with I/O space decoding and bus mastering enabled.
pub fn pci_enable_command(cmd: u16) -> (r: u16)
    ensures
        r == cmd | PCI_COMMAND_IO | PCI_BUS_MASTER,
{
    cmd | PCI_COMMAND_IO | PCI_BUS_MASTER
}

/// Whether a vendor id read from a function means a function is there.
pub fn function_present(vendor: u16) -> (r: bool)
    ensures
        r == (vendor != 0xFFFF),
{
    vendor != 0xFFFF
}

/// Whether a header type register marks a multi-function device.
pub fn is_multifunction(header_type: u16) -> (r: bool)
    ensures
        r == (header_type & 0x80 != 0),
{
    header_type & 0x80 != 0
}

} // verus!
