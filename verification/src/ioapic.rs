//! I/O APIC redirection table entries: their bit fields, delivery modes and
//! flags, and the register selectors of each entry.
use vstd::prelude::*;
use vstd::std_specs::convert::TryFromSpecImpl;

verus! {

/// Register selector of the I/O APIC identification register.
pub const ID: u32 = 0x00;
/// Register selector of the I/O APIC version register.
pub const VERSION: u32 = 0x01;
/// Register selector of the I/O APIC arbitration register.
pub const ARBITRATION: u32 = 0x02;
/// Register selector of the first redirection table register.
pub const TABLE_BASE: u32 = 0x10;
/// Bits of the low word that hold the delivery mode.
pub const IRQ_MODE_MASK: u32 = 0x0000_0700;

/// Error of the kernel's self tests.
#[derive(Debug, Clone, Copy, PartialEq, Eq)]
pub enum TestError {
    Error,
}

/// I/O APIC interrupt delivery modes.
#[derive(Debug, PartialEq, Eq, Structural, Clone, Copy)]
pub enum IrqMode {
    /// Asserts the INTR signal on all allowed processors.
    Fixed,
    /// Asserts the INTR signal on the lowest priority processor allowed.
    LowestPriority,
    /// System management interrupt. Requires edge-triggering.
    SystemManagement,
    /// Asserts the NMI signal on all allowed processors. Requires edge-triggering.
    NonMaskable,
    /// Asserts the INIT signal on all allowed processors. Requires edge-triggering.
    Init,
    /// Asserts the INTR signal as a signal that originated in an externally
    /// connected interrupt controller. Requires edge-triggering.
    External,
}

/// The three-bit code of a delivery mode.
pub open spec fn mode_code(m: IrqMode) -> u32 {
    match m {
        IrqMode::Fixed => 0b000,
        IrqMode::LowestPriority => 0b001,
        IrqMode::SystemManagement => 0b010,
        IrqMode::NonMaskable => 0b100,
        IrqMode::Init => 0b101,
        IrqMode::External => 0b111,
    }
}

/// The delivery mode a low word encodes, or the unknown code.
pub open spec fn mode_of(value: u32) -> Result<IrqMode, u32> {
    let code = (value & IRQ_MODE_MASK) >> 8u32;
    if code == 0b000 {
        Ok(IrqMode::Fixed)
    } else if code == 0b001 {
        Ok(IrqMode::LowestPriority)
    } else if code == 0b010 {
        Ok(IrqMode::SystemManagement)
    } else if code == 0b100 {
        Ok(IrqMode::NonMaskable)
    } else if code == 0b101 {
        Ok(IrqMode::Init)
    } else if code == 0b111 {
        Ok(IrqMode::External)
    } else {
        Err(code)
    }
}

impl IrqMode {
    /// The mode's code shifted into place in the low word.
    pub(crate) fn as_u32(self) -> (r: u32)
        ensures
            r == mode_code(self) << 8u32,
    {
        match self {
            IrqMode::Fixed => 0b000 << 8,
            IrqMode::LowestPriority => 0b001 << 8,
            IrqMode::SystemManagement => 0b010 << 8,
            IrqMode::NonMaskable => 0b100 << 8,
            IrqMode::Init => 0b101 << 8,
            IrqMode::External => 0b111 << 8,
        }
    }
}

impl TryFrom<u32> for IrqMode {
    type Error = u32;

    fn try_from(value: u32) -> (r: Result<Self, Self::Error>) {
        let code = (value & IRQ_MODE_MASK) >> 8;
        if code == 0b000 {
            Ok(IrqMode::Fixed)
        } else if code == 0b001 {
            Ok(IrqMode::LowestPriority)
        } else if code == 0b010 {
            Ok(IrqMode::SystemManagement)
        } else if code == 0b100 {
            Ok(IrqMode::NonMaskable)
        } else if code == 0b101 {
            Ok(IrqMode::Init)
        } else if code == 0b111 {
            Ok(IrqMode::External)
        } else {
            Err(code)
        }
    }
}

impl TryFromSpecImpl<u32> for IrqMode {
    open spec fn obeys_try_from_spec() -> bool {
        true
    }

    open spec fn try_from_spec(value: u32) -> Result<Self, u32> {
        mode_of(value)
    }
}

/// Logical destination mode (vs physical).
pub const LOGICAL_DEST_BIT: u32 = 1 << 11;
/// Delivery status: send pending (vs idle, read-only).
pub const SEND_PENDING_BIT: u32 = 1 << 12;
/// Low-polarity interrupt signal (vs high-polarity).
pub const LOW_ACTIVE_BIT: u32 = 1 << 13;
/// Remote IRR (read-only).
pub const REMOTE_IRR_BIT: u32 = 1 << 14;
/// Level-triggered interrupt (vs edge-triggered).
pub const LEVEL_TRIGGERED_BIT: u32 = 1 << 15;
/// Masked interrupt (vs unmasked).
pub const MASKED_BIT: u32 = 1 << 16;
/// All flag bits.
pub const ALL_FLAG_BITS: u32 = 0x1F800;
/// The read-only flag bits (send pending and remote IRR).
pub const READ_ONLY_FLAG_BITS: u32 = 0x5000;
/// The flag bits that software may write.
pub const WRITABLE_FLAG_BITS: u32 = 0x1A800;

/// Redirection table entry flags: a set of the bits 11 to 16 of the low word.
#[derive(Debug, Clone, Copy, PartialEq, Eq, Structural)]
pub struct IrqFlags {
    bits: u32,
}

proof fn lemma_flag_words(a: u32, b: u32)
    by (bit_vector)
    ensures
        0u32 & !0x1F800u32 == 0,
        0x1F800u32 & !0x1F800u32 == 0,
        (a & 0x1F800u32) & !0x1F800u32 == 0,
        (1u32 << 11u32) & !0x1F800u32 == 0,
        (1u32 << 12u32) & !0x1F800u32 == 0,
        (1u32 << 13u32) & !0x1F800u32 == 0,
        (1u32 << 14u32) & !0x1F800u32 == 0,
        (1u32 << 15u32) & !0x1F800u32 == 0,
        (1u32 << 16u32) & !0x1F800u32 == 0,
        (1u32 << 12u32) | (1u32 << 14u32) == 0x5000u32,
        0x1F800u32 & !0x5000u32 == 0x1A800u32,
        a & !0x1F800u32 == 0 && b & !0x1F800u32 == 0 ==> (a | b) & !0x1F800u32 == 0,
        a & !0x1F800u32 == 0 ==> (a & !b) & !0x1F800u32 == 0,
{
}

impl IrqFlags {
    /// The flag bits as a word.
    pub closed spec fn bits_spec(self) -> u32 {
        self.bits
    }

    /// Only defined flag bits are ever set.
    #[verifier::type_invariant]
    spec fn valid(self) -> bool {
        self.bits & !ALL_FLAG_BITS == 0
    }

    /// No flags.
    pub fn empty() -> (r: IrqFlags)
        ensures
            r.bits_spec() == 0,
    {
        proof {
            lemma_flag_words(0, 0);
        }
        IrqFlags { bits: 0 }
    }

    /// All flags.
    pub fn all() -> (r: IrqFlags)
        ensures
            r.bits_spec() == ALL_FLAG_BITS,
    {
        proof {
            lemma_flag_words(0, 0);
        }
        IrqFlags { bits: ALL_FLAG_BITS }
    }

    /// The flags set in `bits`, ignoring bits that are no flag.
    pub fn from_bits_truncate(bits: u32) -> (r: IrqFlags)
        ensures
            r.bits_spec() == bits & ALL_FLAG_BITS,
            r.bits_spec() & !ALL_FLAG_BITS == 0,
    {
        proof {
            lemma_flag_words(bits, 0);
        }
        IrqFlags { bits: bits & ALL_FLAG_BITS }
    }

    /// The flag bits as a word.
    pub fn bits(&self) -> (r: u32)
        ensures
            r == self.bits_spec(),
            r & !ALL_FLAG_BITS == 0,
    {
        proof {
            use_type_invariant(self);
        }
        self.bits
    }

    /// Logical destination mode.
    pub fn logical_dest() -> (r: IrqFlags)
        ensures
            r.bits_spec() == LOGICAL_DEST_BIT,
    {
        proof {
            lemma_flag_words(0, 0);
        }
        IrqFlags { bits: LOGICAL_DEST_BIT }
    }

    /// Delivery status: send pending.
    pub fn send_pending() -> (r: IrqFlags)
        ensures
            r.bits_spec() == SEND_PENDING_BIT,
    {
        proof {
            lemma_flag_words(0, 0);
        }
        IrqFlags { bits: SEND_PENDING_BIT }
    }

    /// Low-polarity interrupt signal.
    pub fn low_active() -> (r: IrqFlags)
        ensures
            r.bits_spec() == LOW_ACTIVE_BIT,
    {
        proof {
            lemma_flag_words(0, 0);
        }
        IrqFlags { bits: LOW_ACTIVE_BIT }
    }

    /// Remote IRR.
    pub fn remote_irr() -> (r: IrqFlags)
        ensures
            r.bits_spec() == REMOTE_IRR_BIT,
    {
        proof {
            lemma_flag_words(0, 0);
        }
        IrqFlags { bits: REMOTE_IRR_BIT }
    }

    /// Level-triggered interrupt.
    pub fn level_triggered() -> (r: IrqFlags)
        ensures
            r.bits_spec() == LEVEL_TRIGGERED_BIT,
    {
        proof {
            lemma_flag_words(0, 0);
        }
        IrqFlags { bits: LEVEL_TRIGGERED_BIT }
    }

    /// Masked interrupt.
    pub fn masked() -> (r: IrqFlags)
        ensures
            r.bits_spec() == MASKED_BIT,
    {
        proof {
            lemma_flag_words(0, 0);
        }
        IrqFlags { bits: MASKED_BIT }
    }

    /// The flags set in either operand.
    pub fn union(self, other: IrqFlags) -> (r: IrqFlags)
        ensures
            r.bits_spec() == self.bits_spec() | other.bits_spec(),
            r.bits_spec() & !ALL_FLAG_BITS == 0,
    {
        proof {
            use_type_invariant(&self);
            use_type_invariant(&other);
            lemma_flag_words(self.bits, other.bits);
        }
        IrqFlags { bits: self.bits | other.bits }
    }

    /// The flags set in `self` but not in `other`.
    pub fn difference(self, other: IrqFlags) -> (r: IrqFlags)
        ensures
            r.bits_spec() == self.bits_spec() & !other.bits_spec(),
            r.bits_spec() & !ALL_FLAG_BITS == 0,
    {
        proof {
            use_type_invariant(&self);
            lemma_flag_words(self.bits, other.bits);
        }
        IrqFlags { bits: self.bits & !other.bits }
    }

    /// Whether every flag of `other` is set in `self`.
    pub fn contains(&self, other: IrqFlags) -> (r: bool)
        ensures
            r == (self.bits_spec() & other.bits_spec() == other.bits_spec()),
    {
        self.bits & other.bits == other.bits
    }
}

/// Bit `n` of `x` is set.
pub open spec fn bit_set(x: u32, n: u32) -> bool {
    (x >> n) & 1 != 0
}

/// `x` with bit `n` set to `v`.
pub open spec fn with_bit(x: u32, n: u32, v: bool) -> u32 {
    (x & !(1u32 << n)) | ((if v { 1u32 } else { 0u32 }) << n)
}

/// A redirection table entry: the low and high words of an I/O APIC
/// redirection register.
#[derive(Debug, Clone, Copy)]
pub struct RedirectionTableEntry {
    pub low: u32,
    pub high: u32,
}

impl Default for RedirectionTableEntry {
    fn default() -> (r: Self)
        ensures
            r.low == 0 && r.high == 0,
    {
        RedirectionTableEntry { low: 0, high: 0 }
    }
}

proof fn lemma_with_bit(x: u32, n: u32, v: bool, m: u32)
    by (bit_vector)
    requires
        n < 32,
        m < 32,
    ensures
        bit_set(with_bit(x, n, v), n) == v,
        m != n ==> bit_set(with_bit(x, n, v), m) == bit_set(x, m),
        with_bit(x, n, v) & !(1u32 << n) == x & !(1u32 << n),
{
}

proof fn lemma_vector_update(l: u32, v: u32)
    by (bit_vector)
    requires
        v <= 0xff,
    ensures
        ((l & !0xffu32) | v) & 0xff == v,
        ((l & !0xffu32) | v) & !0xffu32 == l & !0xffu32,
        ((l & !0xffu32) | v) & 0x700u32 == l & 0x700u32,
{
}

proof fn lemma_mode_update(l: u32, c: u32)
    by (bit_vector)
    requires
        c <= 7,
    ensures
        (((l & !0x700u32) | (c << 8u32)) & 0x700u32) >> 8u32 == c,
        ((l & !0x700u32) | (c << 8u32)) & !0x700u32 == l & !0x700u32,
        ((l & !0x700u32) | (c << 8u32)) & 0xff == l & 0xff,
{
}

proof fn lemma_flag_update(l: u32, f: u32)
    by (bit_vector)
    requires
        f & !0x1F800u32 == 0,
    ensures
        ((l & !0x1A800u32) | (f & !0x5000u32)) & 0x1A800u32 == f & 0x1A800u32,
        ((l & !0x1A800u32) | (f & !0x5000u32)) & !0x1A800u32 == l & !0x1A800u32,
        ((l & !0x1A800u32) | (f & !0x5000u32)) & 0xff == l & 0xff,
        ((l & !0x1A800u32) | (f & !0x5000u32)) & 0x700u32 == l & 0x700u32,
        (l & !0x1A800u32) | (f & !0x5000u32) == (l & !0x1A800u32) | (f & 0x1A800u32),
{
}

proof fn lemma_dest_update(d: u32)
    by (bit_vector)
    requires
        d <= 0xff,
    ensures
        (d << 24u32) >> 24u32 == d,
{
}

proof fn lemma_destination_update(h: u32, v: u32)
    by (bit_vector)
    requires
        v <= 0xff,
    ensures
        v & 0xff == v,
        ((h & !0xffu32) | v) & 0xff == v,
        ((h & !0xffu32) | v) & !0xffu32 == h & !0xffu32,
{
}

impl RedirectionTableEntry {
    /// Creates an entry from its raw low and high words.
    pub(crate) fn from_raw(low: u32, high: u32) -> (r: Self)
        ensures
            r.low == low && r.high == high,
    {
        Self { low, high }
    }

    /// The raw low and high words of the entry.
    pub(crate) fn into_raw(self) -> (r: (u32, u32))
        ensures
            r == (self.low, self.high),
    {
        (self.low, self.high)
    }

    /// The interrupt vector field (bits 0-7 of the low word).
    pub open spec fn vector_spec(self) -> u8 {
        (self.low & 0xff) as u8
    }

    /// The delivery mode field (bits 8-10 of the low word).
    pub open spec fn mode_spec(self) -> Result<IrqMode, u32> {
        mode_of(self.low)
    }

    /// The destination field (bits 24-31 of the high word).
    pub open spec fn dest_spec(self) -> u8 {
        (self.high >> 24u32) as u8
    }

    /// Returns the interrupt vector.
    pub fn vector(&self) -> (r: u8)
        ensures
            r == self.vector_spec(),
    {
        (self.low & 0xff) as u8
    }

    /// Sets the interrupt vector to `vector`, keeping the other fields.
    pub fn set_vector(&mut self, vector: u8)
        ensures
            final(self).low == (old(self).low & !0xffu32) | (vector as u32),
            final(self).high == old(self).high,
            final(self).vector_spec() == vector,
            final(self).low & !0xffu32 == old(self).low & !0xffu32,
            final(self).mode_spec() == old(self).mode_spec(),
    {
        let v = vector as u32;
        self.low = self.low & !0xff | v;
        proof {
            lemma_vector_update(old(self).low, v);
        }
    }

    /// Returns the interrupt delivery mode; the entry must hold a known mode.
    pub fn mode(&self) -> (r: IrqMode)
        requires
            self.mode_spec() is Ok,
        ensures
            Ok::<IrqMode, u32>(r) == self.mode_spec(),
    {
        match IrqMode::try_from(self.low) {
            Ok(m) => m,
            Err(_) => {
                proof {
                    assert(false);
                }
                IrqMode::Fixed
            },
        }
    }

    /// Sets the interrupt delivery mode to `mode`, keeping the other fields.
    pub fn set_mode(&mut self, mode: IrqMode)
        ensures
            final(self).low == (old(self).low & !IRQ_MODE_MASK) | (mode_code(mode) << 8u32),
            final(self).high == old(self).high,
            final(self).mode_spec() == Ok::<IrqMode, u32>(mode),
            final(self).low & !IRQ_MODE_MASK == old(self).low & !IRQ_MODE_MASK,
            final(self).vector_spec() == old(self).vector_spec(),
    {
        let m = mode.as_u32();
        self.low = self.low & !IRQ_MODE_MASK | m;
        proof {
            lemma_mode_update(old(self).low, mode_code(mode));
        }
    }

    /// Returns the redirection table entry flags.
    pub fn flags(&self) -> (r: IrqFlags)
        ensures
            r.bits_spec() == self.low & ALL_FLAG_BITS,
            r.bits_spec() & !ALL_FLAG_BITS == 0,
    {
        IrqFlags::from_bits_truncate(self.low)
    }

    /// Sets the writable flags to `flags`, leaving the read-only flags and the
    /// other fields as they were.
    pub fn set_flags(&mut self, flags: IrqFlags)
        ensures
            final(self).low == (old(self).low & !WRITABLE_FLAG_BITS) | (flags.bits_spec()
                & !READ_ONLY_FLAG_BITS),
            final(self).low == (old(self).low & !WRITABLE_FLAG_BITS) | (flags.bits_spec()
                & WRITABLE_FLAG_BITS),
            final(self).high == old(self).high,
            final(self).low & WRITABLE_FLAG_BITS == flags.bits_spec() & WRITABLE_FLAG_BITS,
            final(self).low & !WRITABLE_FLAG_BITS == old(self).low & !WRITABLE_FLAG_BITS,
            final(self).vector_spec() == old(self).vector_spec(),
            final(self).mode_spec() == old(self).mode_spec(),
    {
        proof {
            use_type_invariant(&flags);
        }
        let ro_flags = IrqFlags::send_pending().union(IrqFlags::remote_irr());
        let writable = IrqFlags::all().difference(ro_flags);
        let given = flags.difference(ro_flags);
        self.low = self.low & !writable.bits() | given.bits();
        proof {
            lemma_flag_words(0, 0);
            lemma_flag_update(old(self).low, flags.bits_spec());
        }
    }

    /// Returns the destination field.
    pub fn dest(&self) -> (r: u8)
        ensures
            r == self.dest_spec(),
    {
        (self.high >> 24) as u8
    }

    /// Sets the destination field to `dest`; the rest of the high word is cleared.
    pub fn set_dest(&mut self, dest: u8)
        ensures
            final(self).high == (dest as u32) << 24u32,
            final(self).low == old(self).low,
            final(self).dest_spec() == dest,
    {
        self.high = (dest as u32) << 24;
        proof {
            lemma_dest_update(dest as u32);
        }
    }

    /// Whether the destination mode is logical (bit 11).
    pub fn dest_mode(&self) -> (r: bool)
        ensures
            r == bit_set(self.low, 11),
    {
        ((self.low >> 11) & 0x1) != 0
    }

    /// Whether a delivery is pending (bit 12).
    pub fn delivery_status(&self) -> (r: bool)
        ensures
            r == bit_set(self.low, 12),
    {
        ((self.low >> 12) & 0x1) != 0
    }

    /// Sets the delivery status bit, keeping the other bits.
    pub fn set_delivery_status(&mut self, val: bool)
        ensures
            final(self).low == with_bit(old(self).low, 12, val),
            final(self).high == old(self).high,
            bit_set(final(self).low, 12) == val,
            forall|m: u32| m < 32 && m != 12 ==> bit_set(final(self).low, m) == bit_set(old(self).low, m),
    {
        let b: u32 = if val { 1 } else { 0 };
        self.low = (self.low & !(0x1 << 12)) | (b << 12);
        proof {
            assert forall|m: u32| m < 32 implies bit_set(with_bit(old(self).low, 12, val), 12) == val
                && (m != 12 ==> bit_set(with_bit(old(self).low, 12, val), m) == bit_set(old(self).low, m)) by {
                lemma_with_bit(old(self).low, 12, val, m);
            }
            lemma_with_bit(old(self).low, 12, val, 0);
        }
    }

    /// Whether the interrupt is active low (bit 13).
    pub fn polarity(&self) -> (r: bool)
        ensures
            r == bit_set(self.low, 13),
    {
        ((self.low >> 13) & 0x1) != 0
    }

    /// Sets the polarity bit, keeping the other bits.
    pub fn set_polarity(&mut self, val: bool)
        ensures
            final(self).low == with_bit(old(self).low, 13, val),
            final(self).high == old(self).high,
            bit_set(final(self).low, 13) == val,
            forall|m: u32| m < 32 && m != 13 ==> bit_set(final(self).low, m) == bit_set(old(self).low, m),
    {
        let b: u32 = if val { 1 } else { 0 };
        self.low = (self.low & !(0x1 << 13)) | (b << 13);
        proof {
            assert forall|m: u32| m < 32 implies bit_set(with_bit(old(self).low, 13, val), 13) == val
                && (m != 13 ==> bit_set(with_bit(old(self).low, 13, val), m) == bit_set(old(self).low, m)) by {
                lemma_with_bit(old(self).low, 13, val, m);
            }
            lemma_with_bit(old(self).low, 13, val, 0);
        }
    }

    /// Whether remote IRR is set (bit 14).
    pub fn remote_irr(&self) -> (r: bool)
        ensures
            r == bit_set(self.low, 14),
    {
        ((self.low >> 14) & 0x1) != 0
    }

    /// Sets the remote IRR bit, keeping the other bits.
    pub fn set_remote_irr(&mut self, val: bool)
        ensures
            final(self).low == with_bit(old(self).low, 14, val),
            final(self).high == old(self).high,
            bit_set(final(self).low, 14) == val,
            forall|m: u32| m < 32 && m != 14 ==> bit_set(final(self).low, m) == bit_set(old(self).low, m),
    {
        let b: u32 = if val { 1 } else { 0 };
        self.low = (self.low & !(0x1 << 14)) | (b << 14);
        proof {
            assert forall|m: u32| m < 32 implies bit_set(with_bit(old(self).low, 14, val), 14) == val
                && (m != 14 ==> bit_set(with_bit(old(self).low, 14, val), m) == bit_set(old(self).low, m)) by {
                lemma_with_bit(old(self).low, 14, val, m);
            }
            lemma_with_bit(old(self).low, 14, val, 0);
        }
    }

    /// Whether the interrupt is level triggered (bit 15).
    pub fn trigger_mode(&self) -> (r: bool)
        ensures
            r == bit_set(self.low, 15),
    {
        ((self.low >> 15) & 0x1) != 0
    }

    /// Sets the trigger mode bit, keeping the other bits.
    pub fn set_trigger_mode(&mut self, val: bool)
        ensures
            final(self).low == with_bit(old(self).low, 15, val),
            final(self).high == old(self).high,
            bit_set(final(self).low, 15) == val,
            forall|m: u32| m < 32 && m != 15 ==> bit_set(final(self).low, m) == bit_set(old(self).low, m),
    {
        let b: u32 = if val { 1 } else { 0 };
        self.low = (self.low & !(0x1 << 15)) | (b << 15);
        proof {
            assert forall|m: u32| m < 32 implies bit_set(with_bit(old(self).low, 15, val), 15) == val
                && (m != 15 ==> bit_set(with_bit(old(self).low, 15, val), m) == bit_set(old(self).low, m)) by {
                lemma_with_bit(old(self).low, 15, val, m);
            }
            lemma_with_bit(old(self).low, 15, val, 0);
        }
    }

    /// Whether the interrupt is masked (bit 16).
    pub fn mask(&self) -> (r: bool)
        ensures
            r == bit_set(self.low, 16),
    {
        ((self.low >> 16) & 0x1) != 0
    }

    /// Sets the mask bit, keeping the other bits.
    pub fn set_mask(&mut self, val: bool)
        ensures
            final(self).low == with_bit(old(self).low, 16, val),
            final(self).high == old(self).high,
            bit_set(final(self).low, 16) == val,
            forall|m: u32| m < 32 && m != 16 ==> bit_set(final(self).low, m) == bit_set(old(self).low, m),
    {
        let b: u32 = if val { 1 } else { 0 };
        self.low = (self.low & !(0x1 << 16)) | (b << 16);
        proof {
            assert forall|m: u32| m < 32 implies bit_set(with_bit(old(self).low, 16, val), 16) == val
                && (m != 16 ==> bit_set(with_bit(old(self).low, 16, val), m) == bit_set(old(self).low, m)) by {
                lemma_with_bit(old(self).low, 16, val, m);
            }
            lemma_with_bit(old(self).low, 16, val, 0);
        }
    }

    /// The low byte of the high word.
    pub fn destination(&self) -> (r: u8)
        ensures
            r == (self.high & 0xff) as u8,
    {
        (self.high & 0xff) as u8
    }

    /// Sets the low byte of the high word, keeping its other bits.
    pub fn set_destination(&mut self, val: u8)
        ensures
            final(self).high == (old(self).high & !0xffu32) | (val as u32),
            final(self).low == old(self).low,
            (final(self).high & 0xff) as u8 == val,
            final(self).high & !0xffu32 == old(self).high & !0xffu32,
    {
        let v = val as u32;
        self.high = (self.high & !0xff) | (v & 0xff);
        proof {
            lemma_destination_update(old(self).high, v);
        }
    }
}

/// The register selector of the low word of the entry for `irq`.
pub fn lo(irq: u8) -> (r: u32)
    ensures
        r == TABLE_BASE + 2 * irq,
{
    TABLE_BASE + (2 * (irq as u32))
}

/// The register selector of the high word of the entry for `irq`.
pub fn hi(irq: u8) -> (r: u32)
    ensures
        r == TABLE_BASE + 2 * irq + 1,
{
    lo(irq) + 1
}

/// Physical address at which the I/O APIC registers are mapped.
pub const IOAPIC_PHYS_BASE: u64 = 0xFEC0_0000;

/// Virtual address of the I/O APIC registers, given the offset at which
/// physical memory is mapped.
pub fn ioapic_virt_base(phys_mem_offset: u64) -> (r: u64)
    requires
        phys_mem_offset + IOAPIC_PHYS_BASE <= u64::MAX,
    ensures
        r == phys_mem_offset + IOAPIC_PHYS_BASE,
{
    phys_mem_offset + IOAPIC_PHYS_BASE
}

/// Addresses of the two memory-mapped I/O APIC registers: the register
/// selector and, 16 bytes above it, the data window.
#[derive(Debug, Clone, Copy)]
pub struct IoApicRegisters {
    pub ioregsel: u64,
    pub ioregwin: u64,
}

impl IoApicRegisters {
    /// The registers of the I/O APIC mapped at `base_addr`.
    pub fn new(base_addr: u64) -> (r: Self)
        requires
            base_addr + 16 <= u64::MAX,
        ensures
            r.ioregsel == base_addr,
            r.ioregwin == base_addr + 16,
    {
        IoApicRegisters { ioregsel: base_addr, ioregwin: base_addr + 16 }
    }

    /// The value written back when `mask` is set in a register that read `val`.
    pub fn set(val: u32, mask: u32) -> (r: u32)
        ensures
            r == val | mask,
    {
        val | mask
    }

    /// The value written back when `mask` is cleared in a register that read `val`.
    pub fn clear(val: u32, mask: u32) -> (r: u32)
        ensures
            r == val & !mask,
    {
        val & !mask
    }
}

/// An I/O APIC, known by its registers.
#[derive(Debug, Clone, Copy)]
pub struct IoApic {
    pub regs: IoApicRegisters,
}

/// The entry written for `irq` while the I/O APIC is set up: fixed delivery
/// to `dest_apic`, with vector `offset + irq`, masked.
pub open spec fn init_masked_entry(vector: u8, dest_apic: u8) -> RedirectionTableEntry {
    RedirectionTableEntry { low: vector as u32 | MASKED_BIT, high: (dest_apic as u32) << 24u32 }
}

/// The entry that unmasks the keyboard line.
pub open spec fn init_open_entry(vector: u8, dest_apic: u8) -> RedirectionTableEntry {
    RedirectionTableEntry { low: vector as u32, high: (dest_apic as u32) << 24u32 }
}

/// Highest entry the set-up programs: the advertised maximum, at most 15.
pub open spec fn safe_cap(version_reg: u32) -> u8 {
    let max_redir = ((version_reg >> 16u32) & 0xff) as u8;
    if max_redir < 15 { max_redir } else { 15 }
}

proof fn lemma_fresh_entry(v: u32)
    by (bit_vector)
    requires
        v <= 0xff,
    ensures
        ((0u32 & !0xffu32) | v) == v,
        ((v & !IRQ_MODE_MASK) | (0u32 << 8u32)) == v,
        ((v & !WRITABLE_FLAG_BITS) | (MASKED_BIT & !READ_ONLY_FLAG_BITS)) == v | MASKED_BIT,
        ((v & !WRITABLE_FLAG_BITS) | (0u32 & !READ_ONLY_FLAG_BITS)) == v,
{
}

proof fn lemma_register_fields(reg: u32)
    by (bit_vector)
    ensures
        (reg >> 24u32) & 0xf <= 0xff,
        reg & 0xff <= 0xff,
        (reg >> 16u32) & 0xff <= 0xff,
{
}

impl IoApic {
    /// The I/O APIC whose registers are mapped at `base_addr`.
    pub fn new(base_addr: u64) -> (r: Self)
        requires
            base_addr + 16 <= u64::MAX,
        ensures
            r.regs.ioregsel == base_addr,
            r.regs.ioregwin == base_addr + 16,
    {
        IoApic { regs: IoApicRegisters::new(base_addr) }
    }

    /// The entries written while setting up the I/O APIC, in order, given
    /// the value read from its version register: entries `0` to the safe
    /// cap (the advertised maximum, at most 15) are routed with fixed
    /// delivery to `dest_apic` with vector `offset + irq` and masked; then,
    /// if the cap is at least 1, entry 1 (the keyboard) is written again
    /// unmasked.
    pub fn init(version_reg: u32, offset: u8, dest_apic: u8) -> (r: Vec<(u8, RedirectionTableEntry)>)
        requires
            offset + safe_cap(version_reg) <= 0xff,
        ensures
            r@.len() == safe_cap(version_reg) + 1 + (if safe_cap(version_reg) >= 1 { 1int } else { 0int }),
            forall|i: int|
                0 <= i <= safe_cap(version_reg) ==> #[trigger] r@[i] == (i as u8, init_masked_entry(
                    (offset + i) as u8,
                    dest_apic,
                )),
            safe_cap(version_reg) >= 1 ==> r@[safe_cap(version_reg) + 1] == (1u8, init_open_entry(
                (offset + 1) as u8,
                dest_apic,
            )),
    {
        proof {
            lemma_register_fields(version_reg);
        }
        let max_redir = ((version_reg >> 16) & 0xFF) as u8;
        let cap: u8 = if max_redir < 15 { max_redir } else { 15 };
        let mut out: Vec<(u8, RedirectionTableEntry)> = Vec::new();
        let mut i: usize = 0;
        while i <= cap as usize
            invariant
                cap == safe_cap(version_reg),
                offset + cap <= 0xff,
                i <= cap + 1,
                out@.len() == i,
                forall|j: int|
                    0 <= j < i ==> #[trigger] out@[j] == (j as u8, init_masked_entry(
                        (offset + j) as u8,
                        dest_apic,
                    )),
            decreases cap + 1 - i,
        {
            let irq = i as u8;
            let vector = offset + irq;
            let mut entry = RedirectionTableEntry::default();
            entry.set_vector(vector);
            entry.set_mode(IrqMode::Fixed);
            entry.set_dest(dest_apic);
            entry.set_flags(IrqFlags::masked());
            proof {
                lemma_fresh_entry(vector as u32);
            }
            assert(entry == init_masked_entry(vector, dest_apic));
            out.push((irq, entry));
            i = i + 1;
        }
        if 1 <= cap {
            let mut entry = RedirectionTableEntry::default();
            entry.set_vector(offset + 1);
            entry.set_mode(IrqMode::Fixed);
            entry.set_flags(IrqFlags::empty());
            entry.set_dest(dest_apic);
            proof {
                lemma_fresh_entry((offset + 1) as u32);
            }
            assert(entry == init_open_entry((offset + 1) as u8, dest_apic));
            out.push((1, entry));
        }
        out
    }

    /// The I/O APIC ID, from the value of the ID register.
    pub fn id(id_reg: u32) -> (r: u8)
        ensures
            r == (id_reg >> 24u32) & 0xf,
    {
        proof {
            lemma_register_fields(id_reg);
        }
        ((id_reg >> 24) & 0xf) as u8
    }

    /// The value written to the ID register to set the ID to `id`.
    pub fn set_id(id: u8) -> (r: u32)
        ensures
            r == (id as u32) << 24u32,
    {
        (id as u32) << 24
    }

    /// The I/O APIC version, from the value of the version register.
    pub fn version(version_reg: u32) -> (r: u8)
        ensures
            r == version_reg & 0xff,
    {
        proof {
            lemma_register_fields(version_reg);
        }
        (version_reg & 0xff) as u8
    }

    /// The number (from zero) of the highest redirection entry, from the
    /// value of the version register.
    pub fn max_table_entry(version_reg: u32) -> (r: u8)
        ensures
            r == (version_reg >> 16u32) & 0xff,
    {
        proof {
            lemma_register_fields(version_reg);
        }
        ((version_reg >> 16) & 0xff) as u8
    }

    /// The arbitration ID, from the value of the arbitration register.
    pub fn arbitration_id(arb_reg: u32) -> (r: u8)
        ensures
            r == (arb_reg >> 24u32) & 0xf,
    {
        proof {
            lemma_register_fields(arb_reg);
        }
        ((arb_reg >> 24) & 0xf) as u8
    }

    /// The value written to the arbitration register to set the ID to `id`.
    pub fn set_arbitration_id(id: u8) -> (r: u32)
        ensures
            r == (id as u32) << 24u32,
    {
        (id as u32) << 24
    }

    /// The redirection entry of an interrupt, from the values of its two registers.
    pub fn table_entry(low: u32, high: u32) -> (r: RedirectionTableEntry)
        ensures
            r.low == low && r.high == high,
    {
        RedirectionTableEntry::from_raw(low, high)
    }

    /// The two register writes that store `entry` for `irq`: the low word
    /// to its low register, then the high word to its high register.
    pub fn set_table_entry(irq: u8, entry: RedirectionTableEntry) -> (r: [(u32, u32); 2])
        ensures
            r[0].0 == TABLE_BASE + 2 * irq && r[0].1 == entry.low,
            r[1].0 == TABLE_BASE + 2 * irq + 1 && r[1].1 == entry.high,
    {
        let (lo_value, hi_value) = entry.into_raw();
        [(lo(irq), lo_value), (hi(irq), hi_value)]
    }

    /// The value written back to the low register of an interrupt to enable
    /// it, given the value read: the mask bit cleared.
    pub fn enable_irq(low: u32) -> (r: u32)
        ensures
            r == low & !MASKED_BIT,
    {
        IoApicRegisters::clear(low, IrqFlags::masked().bits())
    }

    /// The value written back to the low register of an interrupt to
    /// disable it, given the value read: the mask bit set.
    pub fn disable_irq(low: u32) -> (r: u32)
        ensures
            r == low | MASKED_BIT,
    {
        IoApicRegisters::set(low, IrqFlags::masked().bits())
    }
}

/// Self test: the selectors of an entry are consecutive and start at the table base.
pub fn test_lo_hi_computation() -> (r: Result<(), TestError>)
    ensures
        r is Ok,
{
    let l = lo(5);
    let h = hi(5);
    if h != l + 1 || l != TABLE_BASE + 2 * 5 {
        return Err(TestError::Error);
    }
    Ok(())
}

/// Self test: a vector that was set is read back.
pub fn test_rte_vector_set_get() -> (r: Result<(), TestError>)
    ensures
        r is Ok,
{
    let mut e = RedirectionTableEntry::default();
    e.set_vector(0xAB);
    if e.vector() != 0xAB {
        return Err(TestError::Error);
    }
    Ok(())
}

/// Self test: a fresh entry is in fixed mode, and a mode that was set is read back.
pub fn test_rte_mode_roundtrip() -> (r: Result<(), TestError>)
    ensures
        r is Ok,
{
    let mut e = RedirectionTableEntry::default();
    proof {
        lemma_mode_update(0, 0);
    }
    assert((0u32 & 0x700u32) >> 8u32 == 0) by (bit_vector);
    if e.mode() != IrqMode::Fixed {
        return Err(TestError::Error);
    }
    e.set_mode(IrqMode::NonMaskable);
    if e.mode() != IrqMode::NonMaskable {
        return Err(TestError::Error);
    }
    Ok(())
}

/// Self test: flags and destination that were set are read back.
pub fn test_flags_and_dest() -> (r: Result<(), TestError>)
    ensures
        r is Ok,
{
    let mut e = RedirectionTableEntry::default();
    e.set_flags(IrqFlags::masked().union(IrqFlags::level_triggered()));
    let flags = e.flags();
    proof {
        lemma_flag_readback(e.low);
    }
    if !flags.contains(IrqFlags::masked()) {
        return Err(TestError::Error);
    }
    if !flags.contains(IrqFlags::level_triggered()) {
        return Err(TestError::Error);
    }
    e.set_dest(0xEE);
    if e.dest() != 0xEE {
        return Err(TestError::Error);
    }
    Ok(())
}

proof fn lemma_flag_readback(l: u32)
    by (bit_vector)
    requires
        l & 0x1A800u32 == ((1u32 << 16u32) | (1u32 << 15u32)) & 0x1A800u32,
    ensures
        (l & 0x1F800u32) & (1u32 << 16u32) == (1u32 << 16u32),
        (l & 0x1F800u32) & (1u32 << 15u32) == (1u32 << 15u32),
{
}

/// Self test: an entry survives the round trip through its raw words.
pub fn test_into_from_raw_roundtrip() -> (r: Result<(), TestError>)
    ensures
        r is Ok,
{
    let mut a = RedirectionTableEntry::default();
    a.set_vector(0x12);
    a.set_mode(IrqMode::External);
    a.set_flags(IrqFlags::masked());
    a.set_dest(0x42);
    let (lo_raw, hi_raw) = a.into_raw();
    let b = RedirectionTableEntry::from_raw(lo_raw, hi_raw);
    proof {
        lemma_flag_readback_masked(b.low);
    }
    if b.vector() != 0x12 {
        return Err(TestError::Error);
    }
    if b.mode() != IrqMode::External {
        return Err(TestError::Error);
    }
    if !b.flags().contains(IrqFlags::masked()) {
        return Err(TestError::Error);
    }
    if b.dest() != 0x42 {
        return Err(TestError::Error);
    }
    Ok(())
}

proof fn lemma_flag_readback_masked(l: u32)
    by (bit_vector)
    requires
        l & 0x1A800u32 == (1u32 << 16u32) & 0x1A800u32,
    ensures
        (l & 0x1F800u32) & (1u32 << 16u32) == (1u32 << 16u32),
{
}

/// Self test: a word with an unknown mode code is refused with that code.
pub fn test_invalid_irqmode_tryfrom() -> (r: Result<(), TestError>)
    ensures
        r is Ok,
{
    let raw: u32 = 0b011 << 8;
    assert((raw & 0x700u32) >> 8u32 == 0b011) by (bit_vector)
        requires
            raw == 0b011u32 << 8u32,
    ;
    match IrqMode::try_from(raw) {
        Ok(_) => Err(TestError::Error),
        Err(e) => if e == 0b011 {
            Ok(())
        } else {
            Err(TestError::Error)
        },
    }
}

} // verus!
