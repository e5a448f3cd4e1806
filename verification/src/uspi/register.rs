//! A cached copy of a 32-bit host controller register.
use vstd::prelude::*;

verus! {

/// A register address with a cached value; the value is valid once read or set.
pub struct TDWHCIRegister {
    pub valid: bool,
    pub address: usize,
    pub buffer: u32,
}

impl TDWHCIRegister {
    /// A register at `address` with no valid value yet.
    pub fn new(address: usize) -> (r: Self)
        ensures
            r.valid == false && r.address == address && r.buffer == 0,
    {
        Self { valid: false, address, buffer: 0 }
    }

    /// A register at `address` holding `value`.
    pub fn with_value(address: usize, value: u32) -> (r: Self)
        ensures
            r.valid == true && r.address == address && r.buffer == value,
    {
        Self { valid: true, address, buffer: value }
    }

    /// Marks the cached value as stale.
    pub fn invalidate(&mut self)
        ensures
            final(self).valid == false,
            final(self).address == old(self).address,
            final(self).buffer == old(self).buffer,
    {
        self.valid = false;
    }

    /// The cached value; it must be valid.
    pub fn get(&mut self) -> (r: u32)
        requires
            old(self).valid,
        ensures
            r == old(self).buffer,
            *final(self) == *old(self),
    {
        self.buffer
    }

    /// Sets the cached value, which becomes valid.
    pub fn set(&mut self, value: u32)
        ensures
            final(self).buffer == value,
            final(self).valid,
            final(self).address == old(self).address,
    {
        self.buffer = value;
        self.valid = true;
    }

    /// Whether any bit of `mask` is set in the cached value, which must be valid.
    pub fn is_set(&mut self, mask: u32) -> (r: bool)
        requires
            old(self).valid,
        ensures
            r == (old(self).buffer & mask != 0),
            *final(self) == *old(self),
    {
        (self.buffer & mask) != 0
    }

    /// Keeps only the bits of `mask` in the cached value, which must be valid.
    pub fn and(&mut self, mask: u32)
        requires
            old(self).valid,
        ensures
            final(self).buffer == old(self).buffer & mask,
            final(self).valid,
            final(self).address == old(self).address,
    {
        self.buffer = self.buffer & mask;
    }

    /// Sets the bits of `mask` in the cached value, which must be valid.
    pub fn or(&mut self, mask: u32)
        requires
            old(self).valid,
        ensures
            final(self).buffer == old(self).buffer | mask,
            final(self).valid,
            final(self).address == old(self).address,
    {
        self.buffer = self.buffer | mask;
    }

    /// Clears bit `nbit` (below 32) of the cached value, which must be valid.
    pub fn clear_bit(&mut self, nbit: usize)
        requires
            old(self).valid,
            nbit < 32,
        ensures
            final(self).buffer == old(self).buffer & !(1u32 << nbit),
            final(self).valid,
            final(self).address == old(self).address,
    {
        self.buffer = self.buffer & !(1u32 << nbit);
    }

    /// Sets bit `nbit` (below 32) of the cached value, which must be valid.
    pub fn set_bit(&mut self, nbit: usize)
        requires
            old(self).valid,
            nbit < 32,
        ensures
            final(self).buffer == old(self).buffer | (1u32 << nbit),
            final(self).valid,
            final(self).address == old(self).address,
    {
        self.buffer = self.buffer | (1u32 << nbit);
    }

    /// Clears every bit; the value becomes valid.
    pub fn clear_all(&mut self)
        ensures
            final(self).buffer == 0,
            final(self).valid,
            final(self).address == old(self).address,
    {
        self.buffer = 0;
        self.valid = true;
    }

    /// Sets every bit; the value becomes valid.
    pub fn set_all(&mut self)
        ensures
            final(self).buffer == u32::MAX,
            final(self).valid,
            final(self).address == old(self).address,
    {
        self.buffer = u32::MAX;
        self.valid = true;
    }
}

} // verus!
