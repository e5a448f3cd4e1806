//! Global system interrupts: what the kernel knows of each one, and how an
//! interrupt source override turns into an I/O APIC redirection entry.
use vstd::prelude::*;
use crate::ioapic::{RedirectionTableEntry, with_bit, bit_set};

verus! {

/// Number of global system interrupts the kernel keeps track of.
pub const GSI_COUNT: usize = 256;

/// Configuration and state of one global system interrupt.
///
/// The handler is held as the index of the kernel's handler routine; the
/// routine itself is a function pointer that only the caller can hold.
#[derive(Debug, Clone, Copy)]
pub struct GsiInfo {
    /// Flags of the interrupt source override (polarity in bits 0-1, trigger
    /// mode in bits 2-3).
    pub flags: u16,
    /// Whether an interrupt source override was found for this GSI.
    pub has_iso: bool,
    /// The CPU vector assigned to this GSI, if any.
    pub vector: Option<u8>,
    /// The device that raises this GSI, if known.
    pub device_ptr: Option<usize>,
    /// The handler registered for this GSI, if any.
    pub handler: Option<usize>,
    /// Whether the interrupt is pending.
    pub pending: bool,
}

impl Default for GsiInfo {
    fn default() -> (r: Self)
        ensures
            r == (GsiInfo {
                flags: 0,
                has_iso: false,
                vector: None,
                device_ptr: None,
                handler: None,
                pending: false,
            }),
    {
        GsiInfo { flags: 0, has_iso: false, vector: None, device_ptr: None, handler: None, pending: false }
    }
}

/// The low word after applying the polarity given by override flags:
/// `01` is active high, `11` active low, anything else keeps the default.
pub open spec fn iso_polarity(flags: u16, low: u32) -> u32 {
    if flags & 3 == 1 {
        with_bit(low, 13, false)
    } else if flags & 3 == 3 {
        with_bit(low, 13, true)
    } else {
        low
    }
}

/// The low word after applying the trigger mode given by override flags:
/// `01` is edge triggered, `11` level triggered, anything else keeps the default.
pub open spec fn iso_trigger(flags: u16, low: u32) -> u32 {
    if (flags >> 2u16) & 3 == 1 {
        with_bit(low, 15, false)
    } else if (flags >> 2u16) & 3 == 3 {
        with_bit(low, 15, true)
    } else {
        low
    }
}

/// The redirection entry programmed for a GSI: the override's polarity and
/// trigger mode (if the GSI has one), then the vector, the destination and
/// the mask.
pub open spec fn gsi_entry_spec(
    entry: RedirectionTableEntry,
    info: GsiInfo,
    vector: u8,
    dest_apic: u8,
    unmask: bool,
) -> RedirectionTableEntry {
    let low0 = if info.has_iso {
        iso_trigger(info.flags, iso_polarity(info.flags, entry.low))
    } else {
        entry.low
    };
    let low1 = (low0 & !0xffu32) | (vector as u32);
    RedirectionTableEntry { low: with_bit(low1, 16, !unmask), high: (dest_apic as u32) << 24u32 }
}

proof fn lemma_vector_keeps_bits(l: u32, v: u32, m: u32)
    by (bit_vector)
    requires
        v <= 0xff,
        8 <= m < 32,
    ensures
        ((((l & !0xffu32) | v) >> m) & 1 != 0) == ((l >> m) & 1 != 0),
        ((l & !0xffu32) | v) & 0xff == v,
        with_bit((l & !0xffu32) | v, 16, true) & 0xff == v,
        with_bit((l & !0xffu32) | v, 16, false) & 0xff == v,
{
}

/// Programs the redirection entry of a GSI: where the GSI has an interrupt
/// source override, its flags set the polarity and the trigger mode; then
/// the vector, the destination APIC and the mask are set.
pub fn program_gsi_vector(
    entry: RedirectionTableEntry,
    info: &GsiInfo,
    vector: u8,
    dest_apic: u8,
    unmask: bool,
) -> (r: RedirectionTableEntry)
    ensures
        r == gsi_entry_spec(entry, *info, vector, dest_apic, unmask),
        r.vector_spec() == vector,
        r.dest_spec() == dest_apic,
        bit_set(r.low, 16) == !unmask,
        info.has_iso && info.flags & 3 == 1 ==> !bit_set(r.low, 13),
        info.has_iso && info.flags & 3 == 3 ==> bit_set(r.low, 13),
        info.has_iso && (info.flags >> 2u16) & 3 == 1 ==> !bit_set(r.low, 15),
        info.has_iso && (info.flags >> 2u16) & 3 == 3 ==> bit_set(r.low, 15),
        !info.has_iso ==> bit_set(r.low, 13) == bit_set(entry.low, 13) && bit_set(r.low, 15)
            == bit_set(entry.low, 15),
{
    let mut rte = entry;
    if info.has_iso {
        let flags = info.flags;
        let polarity = flags & 0x03;
        if polarity == 0x01 {
            rte.set_polarity(false);
        } else if polarity == 0x03 {
            rte.set_polarity(true);
        }
        let trigger = (flags >> 2) & 0x03;
        if trigger == 0x01 {
            rte.set_trigger_mode(false);
        } else if trigger == 0x03 {
            rte.set_trigger_mode(true);
        }
    }
    let ghost low0 = rte.low;
    rte.set_vector(vector);
    let ghost low1 = rte.low;
    rte.set_dest(dest_apic);
    rte.set_mask(!unmask);
    proof {
        lemma_vector_keeps_bits(low0, vector as u32, 13);
        lemma_vector_keeps_bits(low0, vector as u32, 15);
    }
    rte
}

} // verus!
