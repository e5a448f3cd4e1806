use nullex::acpi::{
    find_acpi_table, link_iso_action, madt_disables_legacy_pics, parse_isos, record_isos, AcpiSdtHeader,
    AcpiTableType, IsoAction, IsoRecord, Rsdt,
};
use nullex::gdt::{gdt_selectors, segment_selector, user_code_selector, user_data_selector, with_user_rpl};
use nullex::gsi::{GsiInfo, GSI_COUNT};
use nullex::interrupts::{allocate_and_register_vector, initial_vector_table, VectorAllocError, FIRST_DEVICE_VECTOR};

fn header_bytes(sig: &[u8; 4], length: u32) -> Vec<u8> {
    let mut b = Vec::new();
    b.extend_from_slice(sig);
    b.extend_from_slice(&length.to_le_bytes());
    b.push(1);
    b.push(0x5A);
    b.extend_from_slice(b"OEMIDX");
    b.extend_from_slice(b"TABLEID1");
    b.extend_from_slice(&7u32.to_le_bytes());
    b.extend_from_slice(&0x1234u32.to_le_bytes());
    b.extend_from_slice(&0xABCDu32.to_le_bytes());
    b
}

#[test]
fn table_signatures() {
    assert_eq!(AcpiTableType::Madt.signature(), "APIC");
    assert_eq!(AcpiTableType::Rsdt.signature(), "RSDT");
    assert_eq!(AcpiTableType::Fadt.signature(), "FACP");
    assert!(AcpiTableType::Madt.matches_signature(b"APIC"));
    assert!(!AcpiTableType::Madt.matches_signature(b"APIX"));
}

#[test]
fn header_from_bytes() {
    let b = header_bytes(b"RSDT", 44);
    let h = AcpiSdtHeader::from_bytes(&b).unwrap();
    assert_eq!(&h.signature, b"RSDT");
    assert_eq!(h.length, 44);
    assert_eq!(h.revision, 1);
    assert_eq!(h.checksum, 0x5A);
    assert_eq!(&h.oem_id, b"OEMIDX");
    assert_eq!(&h.oem_table_id, b"TABLEID1");
    assert_eq!(h.oem_revision, 7);
    assert_eq!(h.creator_id, 0x1234);
    assert_eq!(h.creator_revision, 0xABCD);
    assert_eq!(h.entry_count(), 2);
    assert!(AcpiSdtHeader::from_bytes(&b[..35]).is_none());
}

#[test]
fn rsdt_signature_checked() {
    let h = AcpiSdtHeader::from_bytes(&header_bytes(b"RSDT", 48)).unwrap();
    let r = Rsdt::new(h).unwrap();
    assert_eq!(r.header.length, 48);
    assert!(r.pointers_to_other_sdt.is_empty());
    let h = AcpiSdtHeader::from_bytes(&header_bytes(b"XSDT", 48)).unwrap();
    assert!(Rsdt::new(h).is_err());
}

#[test]
fn find_table_in_root_order() {
    let sigs = vec![*b"FACP", *b"APIC", *b"HPET", *b"APIC"];
    assert_eq!(find_acpi_table(&sigs, AcpiTableType::Madt), Some(1));
    assert_eq!(find_acpi_table(&sigs, AcpiTableType::Fadt), Some(0));
    assert_eq!(find_acpi_table(&sigs, AcpiTableType::Bert), None);
}

#[test]
fn legacy_pic_flag() {
    assert!(madt_disables_legacy_pics(1));
    assert!(madt_disables_legacy_pics(3));
    assert!(!madt_disables_legacy_pics(2));
}

fn iso_entry(source: u8, gsi: u32, flags: u16) -> Vec<u8> {
    let mut e = vec![2u8, 10, 0, source];
    e.extend_from_slice(&gsi.to_le_bytes());
    e.extend_from_slice(&flags.to_le_bytes());
    e
}

#[test]
fn madt_overrides_parsed_in_order() {
    let mut entries = vec![0u8, 8, 0, 0, 1, 0, 0, 0];
    entries.extend(iso_entry(0, 2, 0));
    entries.extend(vec![1u8, 12, 0, 0, 0, 0, 0xC0, 0xFE, 0, 0, 0, 0]);
    entries.extend(iso_entry(9, 9, 0x000D));
    let isos = parse_isos(&entries, entries.len());
    assert_eq!(
        isos,
        vec![
            IsoRecord { bus: 0, source: 0, gsi: 2, flags: 0 },
            IsoRecord { bus: 0, source: 9, gsi: 9, flags: 0x000D },
        ]
    );
}

#[test]
fn madt_walk_stops_at_zero_length_entry() {
    let mut entries = iso_entry(1, 1, 5);
    entries.extend(vec![4u8, 0, 0, 0]);
    entries.extend(iso_entry(3, 3, 0));
    let isos = parse_isos(&entries, entries.len());
    assert_eq!(isos, vec![IsoRecord { bus: 0, source: 1, gsi: 1, flags: 5 }]);
    assert!(parse_isos(&[], 0).is_empty());
    assert!(parse_isos(&[2], 1).is_empty());
}

#[test]
fn madt_walk_bounded_by_table_length() {
    let mut entries = iso_entry(1, 1, 5);
    entries.extend(iso_entry(3, 3, 0));
    // The table's length covers only the first entry.
    assert_eq!(parse_isos(&entries, 10), vec![IsoRecord { bus: 0, source: 1, gsi: 1, flags: 5 }]);
    // An override that starts inside the table is read in full, even past its length.
    assert_eq!(
        parse_isos(&entries, 12),
        vec![IsoRecord { bus: 0, source: 1, gsi: 1, flags: 5 }, IsoRecord { bus: 0, source: 3, gsi: 3, flags: 0 }]
    );
    assert!(parse_isos(&entries, 0).is_empty());
}

#[test]
fn overrides_recorded_in_gsi_table() {
    let mut table = vec![GsiInfo::default(); GSI_COUNT];
    let records = vec![
        IsoRecord { bus: 0, source: 0, gsi: 2, flags: 0 },
        IsoRecord { bus: 0, source: 9, gsi: 9, flags: 0x000D },
        IsoRecord { bus: 0, source: 1, gsi: 300, flags: 0x000F },
        IsoRecord { bus: 0, source: 4, gsi: 9, flags: 0x0005 },
    ];
    assert_eq!(record_isos(&mut table, &records), 3);
    assert!(table[2].has_iso);
    assert_eq!(table[2].flags, 0);
    assert!(table[9].has_iso);
    assert_eq!(table[9].flags, 0x0005);
    assert!(!table[1].has_iso);
    assert_eq!(table.iter().filter(|g| g.has_iso).count(), 2);
}

#[test]
fn link_decisions() {
    let none = GsiInfo::default();
    assert_eq!(link_iso_action(&none, false), IsoAction::Skip);
    let iso = GsiInfo { has_iso: true, ..GsiInfo::default() };
    assert_eq!(link_iso_action(&iso, false), IsoAction::TryBind);
    assert_eq!(link_iso_action(&iso, true), IsoAction::Skip);
    let handled = GsiInfo { has_iso: true, handler: Some(1), ..GsiInfo::default() };
    assert_eq!(link_iso_action(&handled, true), IsoAction::AllocateVector);
    let with_vec = GsiInfo { vector: Some(0x31), ..handled };
    assert_eq!(link_iso_action(&with_vec, false), IsoAction::Program(0x31));
}

#[test]
fn vector_allocation() {
    let mut t = initial_vector_table();
    assert_eq!(t.len(), 256);
    assert!(t[0] && t[30] && !t[31] && t[255]);
    assert_eq!(allocate_and_register_vector(&mut t), Ok(FIRST_DEVICE_VECTOR));
    assert_eq!(allocate_and_register_vector(&mut t), Ok(FIRST_DEVICE_VECTOR + 1));
    for i in FIRST_DEVICE_VECTOR..256 {
        t[i] = true;
    }
    let before = t.clone();
    assert_eq!(allocate_and_register_vector(&mut t), Err(VectorAllocError::VectorTableFull));
    assert_eq!(t, before);
}

#[test]
fn user_selectors() {
    assert_eq!(with_user_rpl(0x18), 0x1B);
    assert_eq!(user_code_selector(0x20), 0x23);
    assert_eq!(user_data_selector(0x1B), 0x1B);
}

#[test]
fn kernel_gdt_user_code_follows_user_data() {
    let g = gdt_selectors();
    assert_eq!(g.kernel_code, 0x08);
    assert_eq!(g.tss, 0x10);
    assert_eq!(g.user_data, 0x23);
    assert_eq!(g.user_code, 0x2B);
    assert_eq!(user_code_selector(g.user_code), user_data_selector(g.user_data) + 8);
    assert_eq!(segment_selector(3, 3), 0x1B);
}
