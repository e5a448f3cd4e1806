//! The local APIC: register offsets, the values written to its registers,
//! and the timer calibration from two readings of its counter.
use vstd::prelude::*;

verus! {

/// The data port of the first PIC.
pub const PIC1_DATA: u16 = 0x21;
/// The data port of the second PIC.
pub const PIC2_DATA: u16 = 0xA1;
/// The command port of the first PIC.
pub const PIC1_CMD: u16 = 0x20;
/// The command port of the second PIC.
pub const PIC2_CMD: u16 = 0xA0;
/// The value that signals the end of an interrupt to a PIC.
pub const PIC_EOI: u8 = 0x20;

/// Offset of the local APIC ID register.
pub const APIC_ID: usize = 0x020;
/// Offset of the end-of-interrupt register.
pub const APIC_EOI: usize = 0x0B0;
/// Offset of the spurious interrupt vector register.
pub const APIC_SVR: usize = 0x0F0;
/// Offset of the timer's local vector table entry.
pub const APIC_LVT_TIMER: usize = 0x320;
/// Offset of the timer's initial count register.
pub const APIC_INITIAL_COUNT: usize = 0x380;
/// Offset of the timer's current count register.
pub const APIC_CURRENT_COUNT: usize = 0x390;
/// Offset of the timer's divide configuration register.
pub const APIC_DIVIDE_CONF: usize = 0x3E0;

/// Lowest address at which the local APIC registers may be mapped.
pub const APIC_BASE_MIN: usize = 0xFED0_0000;

/// Enable bit of the spurious interrupt vector register.
pub const SVR_APIC_ENABLE: u32 = 0x100;
/// Mask bit of a local vector table entry.
pub const LVT_MASK_BIT: u32 = 0x1_0000;
/// Periodic mode bit of the timer's local vector table entry.
pub const LVT_MODE_PERIODIC: u32 = 0x2_0000;

proof fn lemma_apic_words(r: u32, v: u32)
    by (bit_vector)
    requires
        v <= 0xff,
    ensures
        r >> 24u32 == r / 0x100_0000,
        (v & 0xff) | 0x100u32 == v + 0x100u32,
        (v & 0xff) == v,
        v | 0x2_0000u32 == v + 0x2_0000u32,
        v | 0x1_0000u32 == v + 0x1_0000u32,
        (v | 0x2_0000u32) | 0x1_0000u32 == v + 0x2_0000u32 + 0x1_0000u32,
{
}

/// Address of the register at `offset`, given the base at which the local
/// APIC is mapped.
pub fn apic_reg_address(base: usize, offset: usize) -> (r: usize)
    requires
        base >= APIC_BASE_MIN,
        base + offset <= usize::MAX,
    ensures
        r == base + offset,
{
    base + offset
}

/// The local APIC ID, from the value of its ID register.
pub fn local_apic_id(id_reg: u32) -> (r: u8)
    ensures
        r == id_reg / 0x100_0000,
{
    proof {
        lemma_apic_words(id_reg, 0);
    }
    (id_reg >> 24) as u8
}

/// The value written to the spurious interrupt vector register to enable
/// the APIC with the given spurious vector.
pub fn enable_apic(spurious_vector: u8) -> (r: u32)
    ensures
        r == spurious_vector + SVR_APIC_ENABLE,
{
    proof {
        lemma_apic_words(0, spurious_vector as u32);
    }
    ((spurious_vector as u32) & 0xFF) | SVR_APIC_ENABLE
}

/// The value written to the divide configuration register.
pub fn timer_divide_value(divide_cfg: u32) -> (r: u32)
    ensures
        r == divide_cfg % 16,
{
    assert(divide_cfg & 0xF == divide_cfg % 16) by (bit_vector);
    divide_cfg & 0xF
}

/// The timer's local vector table entry for a vector, periodic or one-shot,
/// masked or not.
pub fn lvt_timer_entry(vector: u8, periodic: bool, masked: bool) -> (r: u32)
    ensures
        r == vector + (if periodic { LVT_MODE_PERIODIC } else { 0 }) + (if masked { LVT_MASK_BIT } else { 0 }),
{
    proof {
        lemma_apic_words(0, vector as u32);
    }
    let mut entry = (vector as u32) & 0xFF;
    if periodic {
        entry = entry | LVT_MODE_PERIODIC;
    }
    if masked {
        entry = entry | LVT_MASK_BIT;
    }
    entry
}

/// The timer's local vector table entry after masking or unmasking it,
/// given the value read.
pub fn mask_timer(current: u32, mask: bool) -> (r: u32)
    ensures
        mask ==> r == current | LVT_MASK_BIT,
        !mask ==> r == current & !LVT_MASK_BIT,
{
    if mask {
        current | LVT_MASK_BIT
    } else {
        current & !LVT_MASK_BIT
    }
}

/// Ticks the down-counting timer made between two readings.
pub open spec fn ticks_between(start_count: u32, end_count: u32) -> u64 {
    if start_count >= end_count {
        (start_count - end_count) as u64
    } else {
        (start_count + 0x1_0000_0000 - end_count) as u64
    }
}

/// The timer calibration: from the counter read before and after one RTC
/// second, the ticks per second and the initial count that makes the timer
/// fire `target_hz` times a second. Refused for a target of zero, when the
/// counter did not move, and when the initial count would be zero.
pub fn calibrate(target_hz: u32, start_count: u32, end_count: u32) -> (r: Result<(u64, u32), &'static str>)
    ensures
        target_hz == 0 ==> r is Err,
        target_hz != 0 && ticks_between(start_count, end_count) == 0 ==> r is Err,
        target_hz != 0 && ticks_between(start_count, end_count) != 0 && ticks_between(start_count, end_count)
            / (target_hz as u64) == 0 ==> r is Err,
        target_hz != 0 && ticks_between(start_count, end_count) / (target_hz as u64) != 0 ==> r == Ok::<
            (u64, u32),
            &'static str,
        >((ticks_between(start_count, end_count), (ticks_between(start_count, end_count) / (target_hz as u64)) as u32)),
{
    if target_hz == 0 {
        return Err("target_hz must be > 0");
    }
    let ticks_per_second = start_count.wrapping_sub(end_count) as u64;
    if ticks_per_second == 0 {
        return Err("measured zero ticks_per_second; calibration failed");
    }
    let initial_count_u64 = ticks_per_second / (target_hz as u64);
    if initial_count_u64 == 0 || initial_count_u64 > 0xFFFF_FFFF {
        return Err("computed invalid initial_count; adjust target_hz or check APIC timer range");
    }
    Ok((ticks_per_second, initial_count_u64 as u32))
}

} // verus!
