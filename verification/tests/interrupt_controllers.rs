use nullex::apic::{
    apic_reg_address, calibrate, enable_apic, local_apic_id, lvt_timer_entry, mask_timer, timer_divide_value,
    APIC_BASE_MIN, APIC_EOI,
};
use nullex::gsi::{program_gsi_vector, GsiInfo};
use nullex::ioapic::{
    hi, ioapic_virt_base, lo, test_flags_and_dest, test_into_from_raw_roundtrip, test_invalid_irqmode_tryfrom,
    test_lo_hi_computation, test_rte_mode_roundtrip, test_rte_vector_set_get, IoApic, IoApicRegisters, IrqFlags,
    IrqMode, RedirectionTableEntry, IOAPIC_PHYS_BASE, MASKED_BIT,
};

#[test]
fn ioapic_self_tests_pass() {
    assert!(test_lo_hi_computation().is_ok());
    assert!(test_rte_vector_set_get().is_ok());
    assert!(test_rte_mode_roundtrip().is_ok());
    assert!(test_flags_and_dest().is_ok());
    assert!(test_into_from_raw_roundtrip().is_ok());
    assert!(test_invalid_irqmode_tryfrom().is_ok());
}

#[test]
fn register_selectors() {
    assert_eq!(lo(0), 0x10);
    assert_eq!(hi(0), 0x11);
    assert_eq!(lo(23), 0x10 + 46);
    assert_eq!(hi(23), 0x10 + 47);
}

#[test]
fn irq_mode_codes() {
    assert_eq!(IrqMode::try_from(0x000u32), Ok(IrqMode::Fixed));
    assert_eq!(IrqMode::try_from(0x100u32), Ok(IrqMode::LowestPriority));
    assert_eq!(IrqMode::try_from(0x200u32), Ok(IrqMode::SystemManagement));
    assert_eq!(IrqMode::try_from(0x400u32), Ok(IrqMode::NonMaskable));
    assert_eq!(IrqMode::try_from(0x500u32), Ok(IrqMode::Init));
    assert_eq!(IrqMode::try_from(0x7FFu32), Ok(IrqMode::External));
    assert_eq!(IrqMode::try_from(0x600u32), Err(0b110));
}

#[test]
fn entry_fields_are_independent() {
    let mut e = RedirectionTableEntry::default();
    e.set_vector(0x31);
    e.set_mode(IrqMode::LowestPriority);
    e.set_dest(0x7);
    e.set_mask(true);
    e.set_polarity(true);
    e.set_trigger_mode(true);
    assert_eq!(e.vector(), 0x31);
    assert_eq!(e.mode(), IrqMode::LowestPriority);
    assert_eq!(e.dest(), 0x7);
    assert!(e.mask());
    assert!(e.polarity());
    assert!(e.trigger_mode());
    assert_eq!(e.low, 0x31 | 0x100 | (1 << 13) | (1 << 15) | (1 << 16));
    assert_eq!(e.high, 0x7 << 24);
    e.set_mask(false);
    assert!(!e.mask());
    assert_eq!(e.vector(), 0x31);
}

#[test]
fn flags_keep_read_only_bits() {
    let mut e = RedirectionTableEntry { low: (1 << 12) | (1 << 14), high: 0 };
    e.set_flags(IrqFlags::empty());
    assert_eq!(e.low, (1 << 12) | (1 << 14));
    e.set_flags(IrqFlags::all());
    assert_eq!(e.flags().bits(), 0x1F800);
    let f = IrqFlags::masked().union(IrqFlags::low_active());
    assert!(f.contains(IrqFlags::masked()));
    assert!(!f.contains(IrqFlags::remote_irr()));
    assert_eq!(f.difference(IrqFlags::masked()).bits(), 1 << 13);
    assert_eq!(IrqFlags::from_bits_truncate(0xFFFF_FFFF).bits(), 0x1F800);
}

#[test]
fn destination_in_high_word() {
    let mut e = RedirectionTableEntry { low: 0, high: 0x1234_5600 };
    e.set_destination(0xAB);
    assert_eq!(e.destination(), 0xAB);
    assert_eq!(e.high, 0x1234_56AB);
}

#[test]
fn ioapic_init_sequence() {
    let version_reg: u32 = 0x0017_0011;
    let writes = IoApic::init(version_reg, 32, 0);
    assert_eq!(writes.len(), 17);
    for (i, (irq, e)) in writes.iter().take(16).enumerate() {
        assert_eq!(*irq as usize, i);
        assert_eq!(e.low, (32 + i as u32) | MASKED_BIT);
        assert_eq!(e.high, 0);
    }
    assert_eq!(writes[16].0, 1);
    assert_eq!(writes[16].1.low, 33);
    let small = IoApic::init(0x0000_0011, 40, 3);
    assert_eq!(small.len(), 1);
    assert_eq!(small[0].1.low, 40 | MASKED_BIT);
    assert_eq!(small[0].1.high, 3 << 24);
}

#[test]
fn ioapic_register_values() {
    assert_eq!(IoApic::id(0x0A00_0000), 0xA);
    assert_eq!(IoApic::set_id(0x5), 0x0500_0000);
    assert_eq!(IoApic::version(0x0017_0020), 0x20);
    assert_eq!(IoApic::max_table_entry(0x0017_0020), 0x17);
    assert_eq!(IoApic::arbitration_id(0x0F00_0000), 0xF);
    assert_eq!(IoApic::set_arbitration_id(2), 0x0200_0000);
    let e = IoApic::table_entry(0x1234, 0x5600_0000);
    assert_eq!(IoApic::set_table_entry(3, e), [(0x16, 0x1234), (0x17, 0x5600_0000)]);
    assert_eq!(IoApic::enable_irq(0x1_0021), 0x21);
    assert_eq!(IoApic::disable_irq(0x21), 0x1_0021);
    assert_eq!(IoApicRegisters::set(0x10, 0x1), 0x11);
    assert_eq!(IoApicRegisters::clear(0x11, 0x1), 0x10);
    let regs = IoApic::new(0x1000).regs;
    assert_eq!(regs.ioregsel, 0x1000);
    assert_eq!(regs.ioregwin, 0x1010);
    assert_eq!(ioapic_virt_base(0x1_0000_0000), 0x1_0000_0000 + IOAPIC_PHYS_BASE);
}

#[test]
fn gsi_override_sets_polarity_and_trigger() {
    let info = GsiInfo { flags: 0b1111, has_iso: true, ..GsiInfo::default() };
    let e = program_gsi_vector(RedirectionTableEntry::default(), &info, 0x40, 2, true);
    assert_eq!(e.vector(), 0x40);
    assert_eq!(e.dest(), 2);
    assert!(e.polarity());
    assert!(e.trigger_mode());
    assert!(!e.mask());

    let info = GsiInfo { flags: 0b0101, has_iso: true, ..GsiInfo::default() };
    let start = RedirectionTableEntry { low: (1 << 13) | (1 << 15), high: 0 };
    let e = program_gsi_vector(start, &info, 0x41, 0, false);
    assert!(!e.polarity());
    assert!(!e.trigger_mode());
    assert!(e.mask());
}

#[test]
fn gsi_without_override_keeps_polarity() {
    let info = GsiInfo::default();
    let start = RedirectionTableEntry { low: 1 << 13, high: 0 };
    let e = program_gsi_vector(start, &info, 0x22, 1, true);
    assert!(e.polarity());
    assert!(!e.trigger_mode());
    assert_eq!(e.vector(), 0x22);
}

#[test]
fn local_apic_values() {
    assert_eq!(apic_reg_address(APIC_BASE_MIN, APIC_EOI), 0xFED0_00B0);
    assert_eq!(local_apic_id(0x0300_0000), 3);
    assert_eq!(enable_apic(0xFF), 0x1FF);
    assert_eq!(timer_divide_value(0x13), 0x3);
    assert_eq!(lvt_timer_entry(32, true, false), 0x2_0020);
    assert_eq!(lvt_timer_entry(32, false, true), 0x1_0020);
    assert_eq!(mask_timer(0x2_0020, true), 0x3_0020);
    assert_eq!(mask_timer(0x3_0020, false), 0x2_0020);
}

#[test]
fn timer_calibration() {
    assert_eq!(calibrate(100, 1_000_000, 0), Ok((1_000_000, 10_000)));
    assert_eq!(calibrate(1, 5, 0xFFFF_FFFF), Ok((6, 6)));
    assert!(calibrate(0, 100, 0).is_err());
    assert!(calibrate(10, 7, 7).is_err());
    assert!(calibrate(1000, 500, 0).is_err());
}
