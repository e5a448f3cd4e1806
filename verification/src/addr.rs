//! Virtual and physical addresses of x86_64.
//!
//! A virtual address holds a page offset in bits 0-11, a virtual page number
//! in bits 12-47, and bits 48-63 are meant to repeat bit 47.
use vstd::prelude::*;

verus! {

/// The bits 48 to 63 of an address.
pub const SIGN_EXT_MASK: u64 = 0xFFFF << 48;

/// Bit `n` of `x` is set.
pub open spec fn bit64(x: u64, n: u64) -> bool {
    (x >> n) & 1 != 0
}

/// An address is canonical when its bits 48 to 63 all repeat bit 47.
pub open spec fn canonical_spec(addr: u64) -> bool {
    (addr >> 47u64) == 0 || (addr >> 47u64) == 0x1_FFFF
}

/// The address that `VirtAddr::try_new` makes of `addr`: a canonical
/// address as it is; one with bits 48 to 63 clear (and bit 47 set) with
/// those bits filled in from bit 47; any other address is refused.
pub open spec fn try_new_spec(addr: u64) -> Option<u64> {
    if canonical_spec(addr) {
        Some(addr)
    } else if addr >> 48u64 == 0 {
        Some(addr | SIGN_EXT_MASK)
    } else {
        None
    }
}

proof fn lemma_canonical(addr: u64)
    by (bit_vector)
    ensures
        (((addr >> 47u64) & 1) == 0) ==> ((((addr & (0xFFFFu64 << 48u64)) >> 48u64) == 0) <==> (addr >> 47u64)
            == 0),
        (((addr >> 47u64) & 1) != 0) ==> ((((addr & (0xFFFFu64 << 48u64)) >> 48u64) == 0xFFFF) <==> (addr
            >> 47u64) == 0x1_FFFF),
        ((addr >> 47u64) & 1) != 0 && addr >> 48u64 == 0 ==> (addr | !(((1u64 << 48u64) - 1) as u64)) == (addr
            | (0xFFFFu64 << 48u64)) && ((addr | (0xFFFFu64 << 48u64)) >> 47u64) == 0x1_FFFF,
        ((addr >> 47u64) & 1) == 0 && addr >> 48u64 == 0 ==> (addr >> 47u64) == 0,
        (addr & SIGN_EXT_MASK == 0) <==> addr >> 48u64 == 0,
        SIGN_EXT_MASK == 0xFFFFu64 << 48u64,
        ((addr >> 47u64) & 1) == 0 ==> (addr >> 47u64) != 0x1_FFFF,
        ((addr >> 47u64) & 1) != 0 ==> (addr >> 47u64) != 0,
        (1u64 << 36u64) - 1 == 0xF_FFFF_FFFFu64,
{
}

/// A virtual address.
#[derive(Debug)]
pub struct VirtAddr(u64);

/// Bit `bit` of `x`.
fn extract_bit(x: u64, bit: u64) -> (r: bool)
    requires
        bit < 64,
    ensures
        r == bit64(x, bit),
{
    (x >> bit) & 1 != 0
}

/// The bits `lo..hi` of `x`, shifted down to bit 0.
fn extract_bits(x: u64, lo: u64, hi: u64) -> (r: u64)
    requires
        lo < hi < 64,
    ensures
        r == (x >> lo) & (((1u64 << ((hi - lo) as u64)) - 1) as u64),
{
    proof {
        lemma_shift_positive((hi - lo) as u64);
    }
    (x >> lo) & ((1u64 << (hi - lo)) - 1)
}

proof fn lemma_shift_positive(n: u64)
    by (bit_vector)
    requires
        n < 64,
    ensures
        1u64 << n >= 1,
{
}

/// `x` sign-extended from its lowest `bits` bits.
fn sign_extend(x: u64, bits: u64) -> (r: u64)
    requires
        0 < bits < 64,
    ensures
        r == (if (x >> ((bits - 1) as u64)) & 1 != 0 {
            x | !(((1u64 << bits) - 1) as u64)
        } else {
            x & (((1u64 << bits) - 1) as u64)
        }),
{
    proof {
        lemma_shift_positive(bits);
    }
    if (x >> (bits - 1)) & 1 != 0 {
        x | !((1u64 << bits) - 1)
    } else {
        x & ((1u64 << bits) - 1)
    }
}

impl VirtAddr {
    /// The address as a number.
    pub closed spec fn value(&self) -> u64 {
        self.0
    }

    /// Creates a virtual address; the address must be one that `try_new`
    /// accepts.
    pub fn new(addr: u64) -> (r: Self)
        requires
            try_new_spec(addr) is Some,
        ensures
            Some(r.value()) == try_new_spec(addr),
            canonical_spec(r.value()),
    {
        match VirtAddr::try_new(addr) {
            Some(a) => a,
            None => {
                proof {
                    assert(false);
                }
                VirtAddr(addr)
            },
        }
    }

    /// Creates a canonical virtual address: a canonical `addr` is taken as
    /// it is, an address with bit 47 set and bits 48 to 63 clear is
    /// sign-extended from bit 47, and any other address is refused.
    pub fn try_new(addr: u64) -> (r: Option<Self>)
        ensures
            r matches Some(a) ==> Some(a.value()) == try_new_spec(addr) && canonical_spec(a.value()),
            r is None <==> try_new_spec(addr) is None,
    {
        proof {
            lemma_canonical(addr);
        }
        if VirtAddr(addr).is_canonical() {
            Some(VirtAddr(addr))
        } else {
            if extract_bit(addr, 47) && (addr & SIGN_EXT_MASK) == 0 {
                let a = sign_extend(addr, 48);
                proof {
                    lemma_canonical(a);
                }
                if VirtAddr(a).is_canonical() {
                    Some(VirtAddr(a))
                } else {
                    None
                }
            } else {
                None
            }
        }
    }

    /// The address as a number.
    pub fn as_u64(&self) -> (r: u64)
        ensures
            r == self.value(),
    {
        self.0
    }

    /// The virtual page number: bits 12 to 47 of the address.
    pub fn vpn(&self) -> (r: u64)
        ensures
            r == (self.value() >> 12u64) & 0xF_FFFF_FFFF,
    {
        proof {
            lemma_canonical(self.0);
        }
        extract_bits(self.0, 12, 48)
    }

    /// Whether the address is canonical: bits 48 to 63 all repeat bit 47.
    pub fn is_canonical(&self) -> (r: bool)
        ensures
            r == canonical_spec(self.value()),
    {
        proof {
            lemma_canonical(self.0);
        }
        let bit47 = (self.as_u64() >> 47) & 1;
        let upper_bits = (self.as_u64() & SIGN_EXT_MASK) >> 48;
        if bit47 == 0 {
            upper_bits == 0
        } else {
            upper_bits == 0xFFFF
        }
    }
}

/// A physical address.
pub struct PhysAddr(u64);

} // verus!
