//! Critical sections of the USB driver and the cache lines a data cache
//! maintenance operation walks. The interrupt masking and the cache
//! instructions themselves are left to the caller.
use vstd::prelude::*;

verus! {

/// The nesting of critical sections: how many are open, and whether
/// interrupts were enabled when the outermost one was entered.
#[derive(Debug, Clone, Copy, PartialEq, Eq, Structural)]
pub struct CriticalState {
    pub level: u32,
    pub were_enabled: bool,
}

/// The interrupt mask bit of the saved processor flags.
pub const IRQ_MASK_BIT: usize = 0x80;

/// The state after entering a critical section with the processor flags
/// `n_flags` read just before interrupts were disabled.
pub open spec fn entered(s: CriticalState, n_flags: usize) -> CriticalState {
    CriticalState {
        level: (s.level + 1) as u32,
        were_enabled: if s.level == 0 { n_flags & IRQ_MASK_BIT == 0 } else { s.were_enabled },
    }
}

/// The state after leaving a critical section, and whether interrupts are
/// to be enabled again: when the outermost section ends and they were
/// enabled when it was entered.
pub open spec fn left(s: CriticalState) -> (CriticalState, bool) {
    (CriticalState { level: (s.level - 1) as u32, ..s }, s.level == 1 && s.were_enabled)
}

impl CriticalState {
    /// No critical section open.
    pub fn new() -> (r: Self)
        ensures
            r.level == 0 && !r.were_enabled,
    {
        CriticalState { level: 0, were_enabled: false }
    }
}

/// Enters a critical section (interrupts have just been disabled; `n_flags`
/// are the processor flags from before): the outermost section records
/// whether interrupts were enabled.
pub fn uspi_enter_critical(state: &mut CriticalState, n_flags: usize)
    requires
        old(state).level < u32::MAX,
    ensures
        *final(state) == entered(*old(state), n_flags),
{
    if state.level == 0 {
        state.were_enabled = (n_flags & IRQ_MASK_BIT) == 0;
    }
    state.level = state.level + 1;
}

/// Leaves a critical section, which must be open; returns whether
/// interrupts are to be enabled again.
pub fn uspi_leave_critical(state: &mut CriticalState) -> (r: bool)
    requires
        old(state).level > 0,
    ensures
        (*final(state), r) == left(*old(state)),
{
    state.level = state.level - 1;
    state.level == 0 && state.were_enabled
}

/// Leaving a section undoes entering it: the nesting level comes back, and
/// interrupts are enabled again exactly when the outermost section closes
/// and they were enabled when it was entered.
pub proof fn lemma_enter_then_leave(s: CriticalState, n_flags: usize)
    requires
        s.level < u32::MAX,
    ensures
        left(entered(s, n_flags)).0.level == s.level,
        left(entered(s, n_flags)).1 == (s.level == 0 && n_flags & IRQ_MASK_BIT == 0),
        s.level > 0 ==> left(entered(s, n_flags)).0 == s,
{
}

/// The cache lines a clean-and-invalidate of `[address, address + length)`
/// walks: one line more than `length` holds whole, from `address` on, a
/// line apart.
pub open spec fn cache_lines(address: u64, length: u64, line: u64) -> Seq<u64> {
    Seq::new(((length + line) / (line as int)) as nat, |k: int| (address + k * line) as u64)
}

/// The addresses at which the data cache is cleaned and invalidated for a
/// range, with cache lines of `line` bytes.
pub fn uspi_clean_and_invalidate_data_cache_range(address: u64, length: u64, line: u64) -> (r: Vec<u64>)
    requires
        line > 0,
        length + line <= u64::MAX,
        address + ((length + line) / (line as int)) * line <= u64::MAX,
    ensures
        r@ == cache_lines(address, length, line),
{
    let mut n_address = address;
    let mut n_length = length + line;
    let mut out: Vec<u64> = Vec::new();
    let ghost total: int = (length + line) / (line as int);
    proof {
        assert(total * line <= length + line) by (nonlinear_arith)
            requires
                total == (length + line) / (line as int),
                line > 0,
        ;
    }
    loop
        invariant
            line > 0,
            total == (length + line) / (line as int),
            address + total * line <= u64::MAX,
            0 <= out@.len() <= total,
            n_address == address + out@.len() * line,
            n_length == length + line - out@.len() * line,
            out@ == cache_lines(address, length, line).take(out@.len() as int),
        ensures
            out@ == cache_lines(address, length, line),
        decreases n_length,
    {
        if n_length < line {
            proof {
                assert(out@.len() == total) by (nonlinear_arith)
                    requires
                        n_length == length + line - out@.len() * line,
                        n_length < line,
                        out@.len() <= total,
                        total == (length + line) / (line as int),
                        line > 0,
                ;
                assert(out@ =~= cache_lines(address, length, line));
            }
            break;
        }
        proof {
            assert(out@.len() < total) by (nonlinear_arith)
                requires
                    n_length == length + line - out@.len() * line,
                    n_length >= line,
                    total == (length + line) / (line as int),
                    line > 0,
            ;
            assert(n_address + line <= address + total * line) by (nonlinear_arith)
                requires
                    n_address == address + out@.len() * line,
                    out@.len() < total,
                    line > 0,
            ;
        }
        let ghost k: int = out@.len() as int;
        out.push(n_address);
        proof {
            assert(out@ =~= cache_lines(address, length, line).take(k + 1));
            assert((k + 1) * line == k * line + line) by (nonlinear_arith);
        }
        n_address = n_address + line;
        n_length = n_length - line;
    }
    out
}

} // verus!
