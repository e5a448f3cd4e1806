//! Verified core logic of a small x86_64 hobby kernel.
pub mod io_alloc;
pub mod ioapic;
pub mod gsi;
pub mod acpi;
pub mod apic;
pub mod shell;
pub mod user;
pub mod interrupts;
pub mod gdt;
pub mod fs;
pub mod ext2;
pub mod ata;
pub mod buddy;
pub mod ini_parser;
pub mod ramfs;
pub mod keyboard;
pub mod addr;
pub mod allocator;
pub mod uspi;
pub mod virtio;
pub mod pci;
pub mod cpu;
