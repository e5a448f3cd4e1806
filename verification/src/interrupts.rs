//! Interrupt vectors: which vectors are taken, and handing out free ones
//! to devices.
use vstd::prelude::*;

verus! {

/// Vector of the local APIC timer.
pub const APIC_TIMER_VECTOR: u8 = 32;
/// Vector of the keyboard.
pub const KEYBOARD_VECTOR: u8 = 33;
/// Vector of the serial port.
pub const SERIAL_VECTOR: u8 = 36;
/// Vector of the real-time clock.
pub const RTC_VECTOR: u8 = 0x70;
/// Vector of system calls.
pub const SYSCALL_VECTOR: u8 = 0x80;
/// Number of interrupt vectors.
pub const VECTOR_COUNT: usize = 256;
/// First vector handed out to devices.
pub const FIRST_DEVICE_VECTOR: usize = 48;

/// Why no vector could be handed out.
#[derive(Debug, Clone, Copy, PartialEq, Eq)]
pub enum VectorAllocError {
    /// Every vector from the first device vector on is taken.
    VectorTableFull,
}

/// The vectors taken at start: 0 to 30, and the spurious vector 255.
pub open spec fn initially_taken(i: int) -> bool {
    (0 <= i < 31) || i == 255
}

/// The table of taken vectors at start.
pub fn initial_vector_table() -> (r: Vec<bool>)
    ensures
        r@.len() == VECTOR_COUNT,
        forall|i: int| 0 <= i < VECTOR_COUNT ==> #[trigger] r@[i] == initially_taken(i),
{
    let mut t: Vec<bool> = Vec::new();
    let mut i: usize = 0;
    while i < VECTOR_COUNT
        invariant
            i <= VECTOR_COUNT,
            t@.len() == i,
            forall|j: int| 0 <= j < i ==> #[trigger] t@[j] == initially_taken(j),
        decreases VECTOR_COUNT - i,
    {
        t.push(i < 31 || i == 255);
        i = i + 1;
    }
    t
}

/// Hands out the lowest free vector from the first device vector on and
/// marks it taken; refused when all of them are taken.
pub fn allocate_and_register_vector(table: &mut Vec<bool>) -> (r: Result<usize, VectorAllocError>)
    requires
        old(table)@.len() == VECTOR_COUNT,
    ensures
        final(table)@.len() == VECTOR_COUNT,
        match r {
            Ok(v) => {
                &&& FIRST_DEVICE_VECTOR <= v < VECTOR_COUNT
                &&& !old(table)@[v as int]
                &&& forall|j: int| FIRST_DEVICE_VECTOR <= j < v ==> #[trigger] old(table)@[j]
                &&& final(table)@ == old(table)@.update(v as int, true)
            },
            Err(e) => {
                &&& e == VectorAllocError::VectorTableFull
                &&& forall|j: int| FIRST_DEVICE_VECTOR <= j < VECTOR_COUNT ==> #[trigger] old(table)@[j]
                &&& final(table)@ == old(table)@
            },
        },
{
    let mut idx: usize = FIRST_DEVICE_VECTOR;
    while idx < VECTOR_COUNT
        invariant
            FIRST_DEVICE_VECTOR <= idx <= VECTOR_COUNT,
            table@ == old(table)@,
            table@.len() == VECTOR_COUNT,
            forall|j: int| FIRST_DEVICE_VECTOR <= j < idx ==> #[trigger] old(table)@[j],
        decreases VECTOR_COUNT - idx,
    {
        if table[idx] {
            idx = idx + 1;
        } else {
            table.set(idx, true);
            return Ok(idx);
        }
    }
    Err(VectorAllocError::VectorTableFull)
}

} // verus!
