//! Segment selectors of the user segments of the global descriptor table.
use vstd::prelude::*;

verus! {

/// Index of the interrupt stack table entry used for double faults.
pub const DOUBLE_FAULT_IST_INDEX: u16 = 0;
/// Size of the stack used when an interrupt is fired.
pub const INTERRUPT_STACK_SIZE: usize = 4096 * 8;

/// A raw segment selector with the requested privilege level set to 3.
pub fn with_user_rpl(selector: u16) -> (r: u16)
    ensures
        r == selector | 3,
{
    selector | 3
}

/// The user code selector, from the selector the descriptor table gave the
/// user code segment.
pub fn user_code_selector(gdt_selector: u16) -> (r: u16)
    ensures
        r == gdt_selector | 3,
{
    with_user_rpl(gdt_selector)
}

/// The user data selector, from the selector the descriptor table gave the
/// user data segment.
pub fn user_data_selector(gdt_selector: u16) -> (r: u16)
    ensures
        r == gdt_selector | 3,
{
    with_user_rpl(gdt_selector)
}

/// The selectors of the kernel's descriptor table.
#[derive(Debug, Clone, Copy, PartialEq, Eq, Structural)]
pub struct GdtSelectors {
    pub kernel_code: u16,
    pub tss: u16,
    pub user_data: u16,
    pub user_code: u16,
}

/// The selector of the descriptor at `index` with privilege level `rpl`:
/// the index above the two privilege bits and the table bit.
pub open spec fn selector_of(index: u16, rpl: u16) -> u16 {
    (index * 8 + rpl) as u16
}

/// A segment selector, as the descriptor table makes one.
pub fn segment_selector(index: u16, rpl: u16) -> (r: u16)
    requires
        index < 0x2000,
        rpl < 4,
    ensures
        r == selector_of(index, rpl),
{
    assert((index << 3u16) | rpl == index * 8 + rpl) by (bit_vector)
        requires
            index < 0x2000,
            rpl < 4,
    ;
    (index << 3) | rpl
}

/// The kernel's descriptor table: after the null descriptor come the kernel
/// code segment, the task state segment (which takes two entries), the user
/// data segment and the user code segment, the user segments with privilege
/// level 3. User data comes right before user code, as `sysret` needs.
pub open spec fn kernel_gdt() -> GdtSelectors {
    GdtSelectors {
        kernel_code: selector_of(1, 0),
        tss: selector_of(2, 0),
        user_data: selector_of(4, 3),
        user_code: selector_of(5, 3),
    }
}

/// The selectors the kernel's descriptor table gives its segments, appended
/// in order to a table that holds only the null descriptor.
pub fn gdt_selectors() -> (r: GdtSelectors)
    ensures
        r == kernel_gdt(),
{
    let mut len: u16 = 1;
    let kernel_code = segment_selector(len, 0);
    len = len + 1;
    let tss = segment_selector(len, 0);
    len = len + 2;
    let user_data = segment_selector(len, 3);
    len = len + 1;
    let user_code = segment_selector(len, 3);
    GdtSelectors { kernel_code, tss, user_data, user_code }
}

/// In the kernel's descriptor table the user selectors carry privilege
/// level 3, and the user code selector is the user data selector plus 8.
pub proof fn lemma_user_code_follows_data()
    ensures
        user_code_sel_spec(kernel_gdt()) & 3 == 3,
        user_data_sel_spec(kernel_gdt()) & 3 == 3,
        user_code_sel_spec(kernel_gdt()) == user_data_sel_spec(kernel_gdt()) + 8,
{
    let g = kernel_gdt();
    assert(g.user_data == 0x23 && g.user_code == 0x2B);
    assert(0x23u16 | 3 == 0x23u16 && 0x2Bu16 | 3 == 0x2Bu16 && 0x23u16 & 3 == 3 && 0x2Bu16 & 3 == 3) by (bit_vector);
}

/// The user code selector `user_code_selector` gives for a table.
pub open spec fn user_code_sel_spec(g: GdtSelectors) -> u16 {
    g.user_code | 3
}

/// The user data selector `user_data_selector` gives for a table.
pub open spec fn user_data_sel_spec(g: GdtSelectors) -> u16 {
    g.user_data | 3
}

} // verus!
