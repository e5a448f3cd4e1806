# nullex

The verified core of a small x86_64 hobby kernel, written in Verus.

`src/` is the library. Each module states its behaviour in `requires` /
`ensures` contracts over mathematical models (`Seq`, `Map`, integers) and
Verus proves the code against them:

- memory: I/O port ranges (`io_alloc`), buddy allocators over physical
  memory (`buddy`), the heap's page range (`allocator`), virtual addresses
  (`addr`);
- interrupts: I/O APIC redirection entries (`ioapic`), the local APIC timer
  (`apic`), GSI routing (`gsi`), the MADT's interrupt source overrides
  (`acpi`), the vector table (`interrupts`), segment selectors (`gdt`);
- devices: PCI enumeration and driver binding (`pci`), VirtIO queues and the
  network device (`virtio`), the Raspberry Pi USB host controller's frame
  schedulers (`uspi`), PS/2 keyboard decoding and the scancode queue
  (`keyboard`);
- files: the in-memory file system (`ramfs`), paths (`fs`), ext2 on-disk
  records (`ext2`), INI text (`ini_parser`);
- the shell's line editing (`shell`) and the initial stack of a user
  process (`user`).

Laws that relate several operations are public proof functions named
`lemma_*` (for instance `ramfs::lemma_write_then_read`,
`buddy::BuddyAllocator::lemma_allocate_then_dealloc`,
`fs::lemma_normalize_idempotent`).

`app/` holds what cannot be verified here: port and memory-mapped I/O,
global state, the asynchronous keyboard task and the global allocator.
`tests/` runs the library on concrete values.
