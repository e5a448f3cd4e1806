//! Allocation of I/O port ranges from a list of free ranges.
//!
//! The allocator keeps a list of free port ranges. Allocation carves an
//! aligned block out of the first range that can hold it, freeing gives a
//! block back (merging it with its neighbours), and reserving removes a block
//! from whatever free ranges it overlaps.
use vstd::prelude::*;

verus! {

/// `x + y` wrapped to 32 bits, as `u32::wrapping_add` computes it.
pub open spec fn wadd(x: u32, y: u32) -> u32 {
    if x + y > u32::MAX {
        (x + y - 0x1_0000_0000) as u32
    } else {
        (x + y) as u32
    }
}

/// `x - y` wrapped to 32 bits, as `u32::wrapping_sub` computes it.
pub open spec fn wsub(x: u32, y: u32) -> u32 {
    if x - y < 0 {
        (x - y + 0x1_0000_0000) as u32
    } else {
        (x - y) as u32
    }
}

/// Every range of `s` ends far enough below `2^32` that a block of `size`
/// ports aligned to `align` found in it cannot wrap around.
pub open spec fn room_for(s: Seq<IoRange>, size: u32, align: u32) -> bool {
    forall|i: int| 0 <= i < s.len() ==> #[trigger] s[i].start + s[i].size + size + align <= 0x1_0000_0000
}

/// Every range of `s` ends at or below port `2^31`.
pub open spec fn ranges_below(s: Seq<IoRange>) -> bool {
    forall|i: int| 0 <= i < s.len() ==> #[trigger] s[i].start + s[i].size <= 0x8000_0000
}

/// A block of `size` ports aligned to `align` is looked for in range `r`
/// without the allocator's wrapping arithmetic wrapping: the range leaves
/// room for `size + align` below `2^32`, or it ends at or below `2^31` and
/// `size` is below `2^31`.
pub open spec fn range_no_wrap(r: IoRange, size: u32, align: u32) -> bool {
    r.start + r.size + size + align <= 0x1_0000_0000 || (r.start + r.size <= 0x8000_0000 && size
        < 0x8000_0000)
}

/// No range of `s` makes the search for the block wrap.
pub open spec fn no_wrap(s: Seq<IoRange>, size: u32, align: u32) -> bool {
    forall|i: int| 0 <= i < s.len() ==> #[trigger] range_no_wrap(s[i], size, align)
}

/// A range of I/O ports `[start, start + size)`.
#[derive(Debug, Clone, Copy)]
pub struct IoRange {
    pub start: u32,
    pub size: u32,
}

impl IoRange {
    /// The port one past the end of the range, wrapped to 32 bits.
    pub open spec fn end_spec(self) -> u32 {
        wadd(self.start, self.size)
    }

    /// Whether port `p` lies in the range (as a mathematical interval).
    pub open spec fn holds(self, p: int) -> bool {
        self.start <= p < self.start + self.size
    }

    /// The port one past the end of the range, computed with wrapping arithmetic.
    pub fn end(&self) -> (r: u32)
        ensures
            r == self.end_spec(),
    {
        self.start.wrapping_add(self.size)
    }
}

/// Whether some range of `s` holds port `p`.
pub open spec fn covers(s: Seq<IoRange>, p: int) -> bool {
    exists|i: int| 0 <= i < s.len() && #[trigger] s[i].holds(p)
}

/// A list of free ranges is well formed when every range is non-empty, ends
/// below `2^32`, and the ranges are sorted by address without overlapping.
pub open spec fn ranges_wf(s: Seq<IoRange>) -> bool {
    &&& forall|i: int|
        0 <= i < s.len() ==> #[trigger] s[i].size > 0 && s[i].start + s[i].size <= u32::MAX
    &&& forall|i: int, j: int|
        #![trigger s[i], s[j]]
        0 <= i < j < s.len() ==> s[i].start + s[i].size <= s[j].start
}

/// `a` is a power of two.
pub open spec fn is_pow2(a: u32) -> bool {
    a != 0 && a & ((a - 1) as u32) == 0
}

/// The first multiple of `align` at or above `start`, computed as the
/// allocator does it with wrapping arithmetic.
pub open spec fn aligned_start(start: u32, align: u32) -> u32 {
    wadd(start, (align - 1) as u32) & !((align - 1) as u32)
}

/// Whether a block of `size` ports aligned to `align` fits at the start of
/// range `r` in the allocator's (wrapping) arithmetic.
pub open spec fn fits(r: IoRange, size: u32, align: u32) -> bool {
    let a = aligned_start(r.start, align);
    a >= r.start && wadd(a, size) <= r.end_spec()
}

/// Range `i` is the first range of `s` in which the block fits.
pub open spec fn first_fit(s: Seq<IoRange>, size: u32, align: u32, i: int) -> bool {
    &&& 0 <= i < s.len()
    &&& fits(s[i], size, align)
    &&& forall|j: int| 0 <= j < i ==> !fits(#[trigger] s[j], size, align)
}

/// The free list after the block `[a, a + size)` is carved out of range `i`.
pub open spec fn carve(s: Seq<IoRange>, i: int, a: u32, size: u32) -> Seq<IoRange> {
    let r = s[i];
    let req_end = wadd(a, size);
    if a == r.start {
        if size == r.size {
            s.remove(i)
        } else {
            s.update(i, IoRange { start: req_end, size: wsub(r.size, size) })
        }
    } else {
        let left = IoRange { start: r.start, size: wsub(a, r.start) };
        let right_size = wsub(r.end_spec(), req_end);
        if right_size > 0 {
            s.update(i, left).insert(i + 1, IoRange { start: req_end, size: right_size })
        } else {
            s.update(i, left)
        }
    }
}

/// `pos` is the first index whose range does not start below `base`.
pub open spec fn is_insert_pos(s: Seq<IoRange>, pos: int, base: u32) -> bool {
    &&& 0 <= pos <= s.len()
    &&& forall|j: int| 0 <= j < pos ==> #[trigger] s[j].start < base
    &&& pos < s.len() ==> s[pos].start >= base
}

/// The free list after `[base, base + size)` is given back at position `pos`,
/// merged with the range before it and/or after it when they touch.
pub open spec fn merge_free(s: Seq<IoRange>, pos: int, base: u32, size: u32) -> Seq<IoRange> {
    let end = wadd(base, size);
    if pos > 0 && s[pos - 1].end_spec() == base {
        let merged = IoRange { start: s[pos - 1].start, size: wadd(s[pos - 1].size, size) };
        if pos < s.len() && s[pos].start == end {
            s.update(
                pos - 1,
                IoRange { start: merged.start, size: wadd(merged.size, s[pos].size) },
            ).remove(pos)
        } else {
            s.update(pos - 1, merged)
        }
    } else if pos < s.len() && s[pos].start == end {
        s.update(pos, IoRange { start: base, size: wadd(s[pos].size, size) })
    } else {
        s.insert(pos, IoRange { start: base, size })
    }
}

/// What is left of range `r` once `[base, end)` is reserved.
pub open spec fn reserve_one(r: IoRange, base: u32, end: u32) -> Seq<IoRange> {
    let rs = r.start;
    let re = r.end_spec();
    if re <= base || rs >= end {
        seq![r]
    } else if base <= rs && end >= re {
        Seq::empty()
    } else if base <= rs && end > rs && end < re {
        seq![IoRange { start: end, size: wsub(re, end) }]
    } else if base > rs && base < re && end >= re {
        seq![IoRange { start: rs, size: wsub(base, rs) }]
    } else if base > rs && end < re {
        seq![IoRange { start: rs, size: wsub(base, rs) }, IoRange { start: end, size: wsub(re, end) }]
    } else {
        seq![r]
    }
}

/// The free list `s` once `[base, end)` is reserved: each range replaced by
/// what is left of it.
pub open spec fn reserve_seq(s: Seq<IoRange>, base: u32, end: u32) -> Seq<IoRange>
    decreases s.len(),
{
    if s.len() == 0 {
        Seq::empty()
    } else {
        reserve_seq(s.drop_last(), base, end) + reserve_one(s.last(), base, end)
    }
}

/// The legacy port ranges `(base, size)` that a new allocator reserves.
pub open spec fn legacy_reservations() -> Seq<(u32, u32)> {
    seq![
        (0x0000u32, 0x0020u32),
        (0x0020u32, 0x0002u32),
        (0x0040u32, 0x0008u32),
        (0x0060u32, 0x0005u32),
        (0x0070u32, 0x0002u32),
        (0x0080u32, 0x0010u32),
        (0x0092u32, 0x0001u32),
        (0x00A0u32, 0x0002u32),
        (0x00C0u32, 0x0020u32),
        (0x00E9u32, 0x0001u32),
        (0x0170u32, 0x0008u32),
        (0x01F0u32, 0x0008u32),
        (0x0278u32, 0x0003u32),
        (0x02F8u32, 0x0008u32),
        (0x03B0u32, 0x0030u32),
        (0x03F0u32, 0x0008u32),
        (0x03F8u32, 0x0008u32),
        (0x0CF8u32, 0x0008u32),
    ]
}

/// The free list `s` once `reserve(base, size)` has run on it.
pub open spec fn reserve_sized(s: Seq<IoRange>, base: u32, size: u32) -> Seq<IoRange> {
    if size == 0 {
        s
    } else {
        reserve_seq(s, base, wadd(base, size))
    }
}

/// The free list `s` once every reservation of `t` has run on it, in order.
pub open spec fn reserve_all(s: Seq<IoRange>, t: Seq<(u32, u32)>) -> Seq<IoRange>
    decreases t.len(),
{
    if t.len() == 0 {
        s
    } else {
        reserve_sized(reserve_all(s, t.drop_last()), t.last().0, t.last().1)
    }
}

/// Port `p` lies in one of the first `k` reservations of `t`.
pub open spec fn reserved_before(t: Seq<(u32, u32)>, k: int, p: int) -> bool {
    exists|j: int| 0 <= j < k && #[trigger] in_block(p, t[j].0, t[j].1)
}

proof fn lemma_legacy_table()
    ensures
        legacy_reservations().len() == 18,
        forall|j: int|
            0 <= j < 18 ==> #[trigger] legacy_reservations()[j].1 > 0
                && legacy_reservations()[j].0 + legacy_reservations()[j].1 <= 0xD00,
{
    let t = legacy_reservations();
    assert forall|j: int| 0 <= j < 18 implies #[trigger] t[j].1 > 0 && t[j].0 + t[j].1 <= 0xD00 by {
        assert(t[0].0 + t[0].1 <= 0xD00 && t[0].1 > 0);
        assert(t[1].0 + t[1].1 <= 0xD00 && t[1].1 > 0);
        assert(t[2].0 + t[2].1 <= 0xD00 && t[2].1 > 0);
        assert(t[3].0 + t[3].1 <= 0xD00 && t[3].1 > 0);
        assert(t[4].0 + t[4].1 <= 0xD00 && t[4].1 > 0);
        assert(t[5].0 + t[5].1 <= 0xD00 && t[5].1 > 0);
        assert(t[6].0 + t[6].1 <= 0xD00 && t[6].1 > 0);
        assert(t[7].0 + t[7].1 <= 0xD00 && t[7].1 > 0);
        assert(t[8].0 + t[8].1 <= 0xD00 && t[8].1 > 0);
        assert(t[9].0 + t[9].1 <= 0xD00 && t[9].1 > 0);
        assert(t[10].0 + t[10].1 <= 0xD00 && t[10].1 > 0);
        assert(t[11].0 + t[11].1 <= 0xD00 && t[11].1 > 0);
        assert(t[12].0 + t[12].1 <= 0xD00 && t[12].1 > 0);
        assert(t[13].0 + t[13].1 <= 0xD00 && t[13].1 > 0);
        assert(t[14].0 + t[14].1 <= 0xD00 && t[14].1 > 0);
        assert(t[15].0 + t[15].1 <= 0xD00 && t[15].1 > 0);
        assert(t[16].0 + t[16].1 <= 0xD00 && t[16].1 > 0);
        assert(t[17].0 + t[17].1 <= 0xD00 && t[17].1 > 0);
    }
}

/// Port `p` lies in one of the legacy reservations.
pub open spec fn legacy_reserved(p: int) -> bool {
    reserved_before(legacy_reservations(), 18, p)
}

/// An allocator of I/O port ranges.
pub struct IoAllocator {
    pub free: Vec<IoRange>,
}

impl IoAllocator {
    /// Creates an allocator over `[start, start + size)` and reserves the
    /// legacy port ranges that are in use without their own allocation (DMA
    /// controllers, PICs, PIT, 8042, CMOS, ATA, serial, VGA, floppy, PCI
    /// configuration ports).
    pub fn new(start: u32, size: u32) -> (a: Self)
        ensures
            a.free@ == reserve_all(seq![IoRange { start, size }], legacy_reservations()),
            size > 0 && start + size <= u32::MAX ==> {
                &&& ranges_wf(a.free@)
                &&& ranges_apart(a.free@)
                &&& forall|p: int| #[trigger]
                    covers(a.free@, p) == (in_block(p, start, size) && !legacy_reserved(p))
            },
    {
        let mut v = Vec::new();
        v.push(IoRange { start, size });
        let mut a = Self { free: v };
        let table: [(u32, u32); 18] = [
            (0x0000, 0x0020),  // DMA controller
            (0x0020, 0x0002),  // PIC1
            (0x0040, 0x0008),  // PIT
            (0x0060, 0x0005),  // 8042
            (0x0070, 0x0002),  // CMOS/RTC
            (0x0080, 0x0010),  // DMA page registers
            (0x0092, 0x0001),  // fast A20
            (0x00A0, 0x0002),  // PIC2
            (0x00C0, 0x0020),  // DMA2 / sound region
            (0x00E9, 0x0001),  // port E9
            (0x0170, 0x0008),  // secondary ATA
            (0x01F0, 0x0008),  // primary ATA
            (0x0278, 0x0003),  // parallel
            (0x02F8, 0x0008),  // COM2
            (0x03B0, 0x0030),  // VGA legacy
            (0x03F0, 0x0008),  // floppy
            (0x03F8, 0x0008),  // COM1
            (0x0CF8, 0x0008),  // PCI configuration (0xCF8/0xCFC)
        ];
        let ghost t = legacy_reservations();
        let ghost init = seq![IoRange { start, size }];
        assert(table@ =~= t);
        proof {
            assert(init[0] == IoRange { start, size });
            assert forall|p: int| #[trigger] covers(init, p) == in_block(p, start, size) by {
                lemma_covers_single(IoRange { start, size }, p);
            }
            assert(t.take(0) =~= Seq::<(u32, u32)>::empty());
        }
        let mut k: usize = 0;
        while k < 18
            invariant
                0 <= k <= 18,
                table@ == t,
                t == legacy_reservations(),
                init == seq![IoRange { start, size }],
                t.len() == 18,
                a.free@ == reserve_all(init, t.take(k as int)),
                size > 0 && start + size <= u32::MAX ==> {
                    &&& ranges_wf(a.free@)
                    &&& ranges_apart(a.free@)
                    &&& forall|p: int| #[trigger]
                        covers(a.free@, p) == (in_block(p, start, size) && !reserved_before(
                            t,
                            k as int,
                            p,
                        ))
                },
            decreases 18 - k,
        {
            let (b, z) = table[k];
            proof {
                lemma_legacy_table();
                assert(t[k as int].1 > 0 && t[k as int].0 + t[k as int].1 <= 0xD00);
                assert(t[k as int] == (b, z));
            }
            let ghost before = a.free@;
            a.reserve(b, z);
            proof {
                assert(t.take(k + 1).drop_last() =~= t.take(k as int));
                assert(t.take(k + 1).last() == t[k as int]);
                assert forall|p: int| #[trigger] reserved_before(t, k + 1, p) == (reserved_before(
                    t,
                    k as int,
                    p,
                ) || in_block(p, b, z)) by {
                    if in_block(p, b, z) {
                        assert(in_block(p, t[k as int].0, t[k as int].1));
                    }
                    if reserved_before(t, k + 1, p) && !in_block(p, b, z) {
                        let j = choose|j: int| 0 <= j < k + 1 && #[trigger] in_block(p, t[j].0, t[j].1);
                        assert(j < k);
                    }
                }
                if size > 0 && start + size <= u32::MAX {
                    assert(z > 0);
                    assert(b + z <= u32::MAX);
                    assert(ranges_wf(before));
                    assert forall|p: int| #[trigger] covers(a.free@, p) == (in_block(p, start, size)
                        && !reserved_before(t, k + 1, p)) by {
                        assert(covers(a.free@, p) == (covers(before, p) && !in_block(p, b, z)));
                        assert(covers(before, p) == (in_block(p, start, size) && !reserved_before(
                            t,
                            k as int,
                            p,
                        )));
                        assert(reserved_before(t, k + 1, p) == (reserved_before(t, k as int, p)
                            || in_block(p, b, z)));
                    }
                }
            }
            k += 1;
        }
        assert(t.take(18) =~= t);
        a
    }

    /// Allocates `size` ports aligned to `align`, which must be a power of two.
    ///
    /// The block is taken from the first free range that can hold it; while
    /// the free ranges are apart, that is the lowest aligned free block.
    pub fn allocate(&mut self, size: u32, align: u32) -> (res: Option<u32>)
        ensures
            !(size > 0 && is_pow2(align)) ==> res is None && final(self).free@ == old(self).free@,
            size > 0 && is_pow2(align) ==> match res {
                None => final(self).free@ == old(self).free@ && forall|j: int|
                    0 <= j < old(self).free@.len() ==> !fits(
                        #[trigger] old(self).free@[j],
                        size,
                        align,
                    ),
                Some(a) => exists|i: int|
                    {
                        &&& #[trigger] first_fit(old(self).free@, size, align, i)
                        &&& a == aligned_start(old(self).free@[i].start, align)
                        &&& final(self).free@ == carve(old(self).free@, i, a, size)
                    },
            },
            size > 0 && is_pow2(align) && res is Some ==> res->0 % align == 0 && res->0 & ((align
                - 1) as u32) == 0,
            ranges_wf(old(self).free@) && size > 0 && is_pow2(align) && (room_for(old(self).free@, size, align)
                || (ranges_below(old(self).free@) && size < 0x8000_0000)) ==> {
                &&& ranges_wf(final(self).free@)
                &&& ranges_apart(old(self).free@) ==> ranges_apart(final(self).free@)
                &&& ranges_below(old(self).free@) ==> ranges_below(final(self).free@)
                &&& ranges_apart(old(self).free@) && res is Some ==> forall|b: u32|
                    b % align == 0 && #[trigger] block_free(old(self).free@, b, size) ==> res->0 <= b
                &&& res matches Some(a) ==> {
                    &&& forall|p: int| in_block(p, a, size) ==> #[trigger] covers(old(self).free@, p)
                    &&& forall|p: int| #[trigger]
                        covers(final(self).free@, p) == (covers(old(self).free@, p) && !in_block(
                            p,
                            a,
                            size,
                        ))
                }
            },
    {
        if size == 0 || align == 0 {
            return None;
        }
        if align & (align - 1) != 0 {
            return None;
        }
        let mut i: usize = 0;
        while i < self.free.len()
            invariant
                self.free@ == old(self).free@,
                i <= self.free@.len(),
                size > 0,
                is_pow2(align),
                forall|j: int| 0 <= j < i ==> !fits(#[trigger] old(self).free@[j], size, align),
            decreases self.free@.len() - i,
        {
            let r = self.free[i];
            let align_mask = align - 1;
            let aligned = r.start.wrapping_add(align.wrapping_sub(1)) & !align_mask;
            if aligned >= r.start {
                let required_end = aligned.wrapping_add(size);
                if required_end <= r.end() {
                    if aligned == r.start {
                        if size == r.size {
                            self.free.remove(i);
                        } else {
                            let new_size = r.size.wrapping_sub(size);
                            self.free[i] = IoRange { start: required_end, size: new_size };
                        }
                    } else {
                        let left_size = aligned.wrapping_sub(r.start);
                        let right_end = r.end();
                        let right_size = right_end.wrapping_sub(required_end);
                        self.free[i] = IoRange { start: r.start, size: left_size };
                        if right_size > 0 {
                            self.free.insert(i + 1, IoRange { start: required_end, size: right_size });
                        }
                    }
                    assert(aligned == aligned_start(r.start, align));
                    assert(first_fit(old(self).free@, size, align, i as int));
                    proof {
                        lemma_align_down(wadd(r.start, (align - 1) as u32), align);
                        if ranges_wf(old(self).free@) && (room_for(old(self).free@, size, align) || (
                        ranges_below(old(self).free@) && size < 0x8000_0000)) {
                            assert(no_wrap(old(self).free@, size, align));
                            lemma_carve(old(self).free@, i as int, aligned, size, align);
                            if ranges_below(old(self).free@) {
                                lemma_below_ports(old(self).free@);
                                lemma_below_by_ports(carve(old(self).free@, i as int, aligned, size));
                            }
                            if ranges_apart(old(self).free@) {
                                lemma_carve_apart(old(self).free@, i as int, aligned, size, align);
                                assert forall|b: u32|
                                    b % align == 0 && #[trigger] block_free(old(self).free@, b, size) implies aligned
                                    <= b by {
                                    lemma_first_fit_lowest(old(self).free@, size, align, i as int, b);
                                }
                            }
                            assert forall|p: int| in_block(p, aligned, size) implies #[trigger] covers(
                                old(self).free@,
                                p,
                            ) by {
                                assert(old(self).free@[i as int].holds(p));
                            }
                        }
                    }
                    assert(self.free@ == carve(old(self).free@, i as int, aligned, size));
                    return Some(aligned);
                }
            }
            i += 1;
        }
        None
    }

    /// Gives `[base, base + size)` back to the free list, merging it with the
    /// neighbouring free ranges it touches.
    pub fn free(&mut self, base: u32, size: u32)
        ensures
            size == 0 ==> final(self).free@ == old(self).free@,
            size > 0 ==> exists|pos: int|
                is_insert_pos(old(self).free@, pos, base) && final(self).free@ == merge_free(
                    old(self).free@,
                    pos,
                    base,
                    size,
                ),
            ranges_wf(old(self).free@) && size > 0 && base + size <= u32::MAX && (forall|p: int|
                in_block(p, base, size) ==> !#[trigger] covers(old(self).free@, p)) ==> {
                &&& ranges_wf(final(self).free@)
                &&& ranges_apart(old(self).free@) ==> ranges_apart(final(self).free@)
                &&& ranges_below(old(self).free@) && base + size <= 0x8000_0000 ==> ranges_below(final(self).free@)
                &&& forall|p: int| #[trigger]
                    covers(final(self).free@, p) == (covers(old(self).free@, p) || in_block(
                        p,
                        base,
                        size,
                    ))
            },
    {
        if size == 0 {
            return;
        }
        let end = base.wrapping_add(size);
        let mut pos: usize = 0;
        while pos < self.free.len() && self.free[pos].start < base
            invariant
                self.free@ == old(self).free@,
                pos <= self.free@.len(),
                forall|j: int| 0 <= j < pos ==> #[trigger] self.free@[j].start < base,
            decreases self.free@.len() - pos,
        {
            pos += 1;
        }
        assert(is_insert_pos(old(self).free@, pos as int, base));
        proof {
            if ranges_wf(old(self).free@) && base + size <= u32::MAX && (forall|p: int|
                in_block(p, base, size) ==> !#[trigger] covers(old(self).free@, p)) {
                lemma_merge_free(old(self).free@, pos as int, base, size);
                if ranges_apart(old(self).free@) {
                    lemma_merge_free_apart(old(self).free@, pos as int, base, size);
                }
                if ranges_below(old(self).free@) && base + size <= 0x8000_0000 {
                    lemma_below_ports(old(self).free@);
                    lemma_below_by_ports(merge_free(old(self).free@, pos as int, base, size));
                }
            }
        }
        if pos > 0 {
            let prev = self.free[pos - 1];
            if prev.end() == base {
                self.free[pos - 1] = IoRange { start: prev.start, size: prev.size.wrapping_add(size) };
                if pos < self.free.len() && self.free[pos].start == end {
                    let next_size = self.free[pos].size;
                    let merged = self.free[pos - 1];
                    self.free[pos - 1] = IoRange { start: merged.start, size: merged.size.wrapping_add(next_size) };
                    self.free.remove(pos);
                }
                assert(self.free@ == merge_free(old(self).free@, pos as int, base, size));
                return;
            }
        }
        if pos < self.free.len() && self.free[pos].start == end {
            let next = self.free[pos];
            self.free[pos] = IoRange { start: base, size: next.size.wrapping_add(size) };
            assert(self.free@ == merge_free(old(self).free@, pos as int, base, size));
            return;
        }
        self.free.insert(pos, IoRange { start: base, size });
        assert(self.free@ == merge_free(old(self).free@, pos as int, base, size));
    }

    /// Removes `[base, base + size)` from every free range it overlaps.
    pub fn reserve(&mut self, base: u32, size: u32)
        ensures
            size == 0 ==> final(self).free@ == old(self).free@,
            size > 0 ==> final(self).free@ == reserve_seq(old(self).free@, base, wadd(base, size)),
            ranges_wf(old(self).free@) && size > 0 && base + size <= u32::MAX ==> {
                &&& ranges_wf(final(self).free@)
                &&& ranges_apart(old(self).free@) ==> ranges_apart(final(self).free@)
                &&& ranges_below(old(self).free@) ==> ranges_below(final(self).free@)
                &&& forall|p: int| #[trigger]
                    covers(final(self).free@, p) == (covers(old(self).free@, p) && !in_block(
                        p,
                        base,
                        size,
                    ))
            },
    {
        if size == 0 {
            return;
        }
        let mut i: usize = 0;
        let end = base.wrapping_add(size);
        let ghost orig = old(self).free@;
        let ghost mut k: int = 0;
        while i < self.free.len()
            invariant
                0 <= k <= orig.len(),
                end == wadd(base, size),
                self.free@ == reserve_seq(orig.take(k), base, end) + orig.skip(k),
                i == reserve_seq(orig.take(k), base, end).len(),
            decreases orig.len() - k,
        {
            proof {
                assert(orig.take(k + 1).drop_last() == orig.take(k));
                assert(orig.skip(k)[0] == orig[k]);
            }
            let r = self.free[i];
            let r_start = r.start;
            let r_end = r.end();
            if r_end <= base || r_start >= end {
                i += 1;
            } else if base <= r_start && end >= r_end {
                self.free.remove(i);
            } else if base <= r_start && end > r_start && end < r_end {
                self.free[i] = IoRange { start: end, size: r_end.wrapping_sub(end) };
                i += 1;
            } else if base > r_start && base < r_end && end >= r_end {
                self.free[i] = IoRange { start: r_start, size: base.wrapping_sub(r_start) };
                i += 1;
            } else if base > r_start && end < r_end {
                self.free[i] = IoRange { start: r_start, size: base.wrapping_sub(r_start) };
                self.free.insert(i + 1, IoRange { start: end, size: r_end.wrapping_sub(end) });
                let len = self.free.len();
                assert(i + 2 <= len);
                i += 2;
            } else {
                i += 1;
            }
            proof {
                assert(self.free@ =~= reserve_seq(orig.take(k + 1), base, end) + orig.skip(k + 1));
                k = k + 1;
            }
        }
        proof {
            assert(orig.take(k) == orig);
            if ranges_wf(orig) && base + size <= u32::MAX {
                lemma_reserve_seq_props(orig, base, size);
                if ranges_apart(orig) {
                    lemma_reserve_apart(orig, base, size);
                }
                if ranges_below(orig) {
                    lemma_below_ports(orig);
                    lemma_below_by_ports(reserve_seq(orig, base, wadd(base, size)));
                }
            }
        }
    }
}

} // verus!

verus! {

// ---------------------------------------------------------------------------
// Facts about free lists seen as sets of ports.
// ---------------------------------------------------------------------------

/// Port `p` lies in the block `[base, base + size)`.
pub open spec fn in_block(p: int, base: u32, size: u32) -> bool {
    base <= p < base + size
}

/// Every port of the block `[base, base + size)` is free in `s`.
pub open spec fn block_free(s: Seq<IoRange>, base: u32, size: u32) -> bool {
    forall|p: int| in_block(p, base, size) ==> #[trigger] covers(s, p)
}

proof fn lemma_covers_concat(a: Seq<IoRange>, b: Seq<IoRange>, p: int)
    ensures
        covers(a + b, p) <==> covers(a, p) || covers(b, p),
{
    if covers(a + b, p) {
        let i = choose|i: int| 0 <= i < (a + b).len() && #[trigger] (a + b)[i].holds(p);
        if i < a.len() {
            assert(a[i] == (a + b)[i]);
        } else {
            assert(b[i - a.len()] == (a + b)[i]);
        }
    }
    if covers(a, p) {
        let i = choose|i: int| 0 <= i < a.len() && #[trigger] a[i].holds(p);
        assert((a + b)[i] == a[i]);
    }
    if covers(b, p) {
        let i = choose|i: int| 0 <= i < b.len() && #[trigger] b[i].holds(p);
        assert((a + b)[i + a.len()] == b[i]);
    }
}

proof fn lemma_covers_single(r: IoRange, p: int)
    ensures
        covers(seq![r], p) <==> r.holds(p),
{
    if r.holds(p) {
        assert(seq![r][0] == r);
    }
}

proof fn lemma_covers_pair(r1: IoRange, r2: IoRange, p: int)
    ensures
        covers(seq![r1, r2], p) <==> r1.holds(p) || r2.holds(p),
{
    assert(seq![r1, r2] == seq![r1] + seq![r2]);
    lemma_covers_concat(seq![r1], seq![r2], p);
    lemma_covers_single(r1, p);
    lemma_covers_single(r2, p);
}

proof fn lemma_covers_empty(p: int)
    ensures
        !covers(Seq::<IoRange>::empty(), p),
{
}

/// Splits `s` around the subrange `[lo, hi)`.
proof fn lemma_split3(s: Seq<IoRange>, lo: int, hi: int, p: int)
    requires
        0 <= lo <= hi <= s.len(),
    ensures
        s == s.take(lo) + s.subrange(lo, hi) + s.skip(hi),
        covers(s, p) <==> covers(s.take(lo), p) || covers(s.subrange(lo, hi), p) || covers(
            s.skip(hi),
            p,
        ),
{
    assert(s =~= s.take(lo) + s.subrange(lo, hi) + s.skip(hi));
    lemma_covers_concat(s.take(lo) + s.subrange(lo, hi), s.skip(hi), p);
    lemma_covers_concat(s.take(lo), s.subrange(lo, hi), p);
}

proof fn lemma_covers_splice(s: Seq<IoRange>, lo: int, hi: int, mid: Seq<IoRange>, p: int)
    requires
        0 <= lo <= hi <= s.len(),
    ensures
        covers(s.take(lo) + mid + s.skip(hi), p) <==> covers(s.take(lo), p) || covers(mid, p)
            || covers(s.skip(hi), p),
{
    lemma_covers_concat(s.take(lo) + mid, s.skip(hi), p);
    lemma_covers_concat(s.take(lo), mid, p);
}

/// Two well-formed lists, the first ending before the second begins,
/// concatenate into a well-formed list.
proof fn lemma_wf_concat(a: Seq<IoRange>, b: Seq<IoRange>)
    requires
        ranges_wf(a),
        ranges_wf(b),
        forall|x: int, y: int|
            #![trigger a[x], b[y]]
            0 <= x < a.len() && 0 <= y < b.len() ==> a[x].start + a[x].size <= b[y].start,
    ensures
        ranges_wf(a + b),
{
    let c = a + b;
    assert forall|i: int| 0 <= i < c.len() implies #[trigger] c[i].size > 0 && c[i].start
        + c[i].size <= u32::MAX by {
        if i < a.len() {
            assert(c[i] == a[i]);
        } else {
            assert(c[i] == b[i - a.len()]);
        }
    }
    assert forall|i: int, j: int| 0 <= i < j < c.len() implies #[trigger] c[i].start
        + c[i].size <= #[trigger] c[j].start by {
        if j < a.len() {
            assert(c[i] == a[i] && c[j] == a[j]);
        } else if i >= a.len() {
            assert(c[i] == b[i - a.len()] && c[j] == b[j - a.len()]);
        } else {
            assert(c[i] == a[i] && c[j] == b[j - a.len()]);
        }
    }
}

/// Every range of `t` lies inside the interval `[lo, hi)`.
pub open spec fn within(t: Seq<IoRange>, lo: int, hi: int) -> bool {
    forall|k: int| 0 <= k < t.len() ==> lo <= #[trigger] t[k].start && t[k].start + t[k].size <= hi
}

/// Replacing ranges `[lo, hi)` of a well-formed list by a well-formed list
/// that stays between the neighbours keeps the list well formed.
proof fn lemma_wf_splice(s: Seq<IoRange>, lo: int, hi: int, mid: Seq<IoRange>, left: int, right: int)
    requires
        ranges_wf(s),
        ranges_wf(mid),
        0 <= lo <= hi <= s.len(),
        within(mid, left, right),
        lo > 0 ==> s[lo - 1].start + s[lo - 1].size <= left,
        hi < s.len() ==> right <= s[hi].start,
    ensures
        ranges_wf(s.take(lo) + mid + s.skip(hi)),
{
    let a = s.take(lo);
    let b = s.skip(hi);
    assert(ranges_wf(a)) by {
        assert forall|i: int, j: int| 0 <= i < j < a.len() implies #[trigger] a[i].start
            + a[i].size <= #[trigger] a[j].start by {
            assert(a[i] == s[i] && a[j] == s[j]);
        }
        assert forall|i: int| 0 <= i < a.len() implies #[trigger] a[i].size > 0 && a[i].start
            + a[i].size <= u32::MAX by {
            assert(a[i] == s[i]);
        }
    }
    assert(ranges_wf(b)) by {
        assert forall|i: int, j: int| 0 <= i < j < b.len() implies #[trigger] b[i].start
            + b[i].size <= #[trigger] b[j].start by {
            assert(b[i] == s[i + hi] && b[j] == s[j + hi]);
        }
        assert forall|i: int| 0 <= i < b.len() implies #[trigger] b[i].size > 0 && b[i].start
            + b[i].size <= u32::MAX by {
            assert(b[i] == s[i + hi]);
        }
    }
    assert forall|x: int, y: int| 0 <= x < a.len() && 0 <= y < mid.len() implies #[trigger] a[x].start
        + a[x].size <= #[trigger] mid[y].start by {
        assert(a[x] == s[x]);
        if x < lo - 1 {
            assert(s[x].start + s[x].size <= s[lo - 1].start);
        }
    }
    lemma_wf_concat(a, mid);
    let am = a + mid;
    assert forall|x: int, y: int| 0 <= x < am.len() && 0 <= y < b.len() implies #[trigger] am[x].start
        + am[x].size <= #[trigger] b[y].start by {
        assert(b[y] == s[y + hi]);
        if y > 0 {
            assert(s[hi].start + s[hi].size <= s[y + hi].start);
        }
        if x < lo {
            assert(am[x] == s[x]);
            assert(s[x].start + s[x].size <= s[y + hi].start);
        } else {
            assert(am[x] == mid[x - lo]);
        }
    }
    lemma_wf_concat(am, b);
}

} // verus!

verus! {

proof fn lemma_align_down(x: u32, m: u32)
    by (bit_vector)
    requires
        m != 0,
        m & ((m - 1) as u32) == 0,
    ensures
        (x & !((m - 1) as u32)) <= x,
        (x & !((m - 1) as u32)) % m == 0,
        (x & !((m - 1) as u32)) & ((m - 1) as u32) == 0,
        x - (x & !((m - 1) as u32)) < m,
        0x8000_0000u32 % m == 0,
{
}

/// Where the search for a block does not wrap, the allocator's wrapping
/// sums are plain sums.
proof fn lemma_range_no_wrap(r: IoRange, size: u32, align: u32)
    requires
        is_pow2(align),
        r.size > 0,
        range_no_wrap(r, size, align),
    ensures
        wadd(r.start, (align - 1) as u32) == r.start + align - 1,
        aligned_start(r.start, align) + size < 0x1_0000_0000,
        wadd(aligned_start(r.start, align), size) == aligned_start(r.start, align) + size,
{
    lemma_align_down(0, align);
    assert(align <= 0x8000_0000) by (nonlinear_arith)
        requires
            0x8000_0000u32 % align == 0,
            align > 0,
    ;
    let x = wadd(r.start, (align - 1) as u32);
    assert(x == r.start + align - 1);
    lemma_align_down(x, align);
    let a = aligned_start(r.start, align);
    if !(r.start + r.size + size + align <= 0x1_0000_0000) {
        if a > 0x8000_0000 {
            assert(0x8000_0000 + align <= a) by (nonlinear_arith)
                requires
                    0x8000_0000u32 % align == 0,
                    a % align == 0,
                    0x8000_0000 < a,
                    align > 0,
            ;
        }
    }
}

/// In a well-formed list a port held by range `i` is held by no other range.
proof fn lemma_only_owner(s: Seq<IoRange>, i: int, p: int)
    requires
        ranges_wf(s),
        0 <= i < s.len(),
        s[i].holds(p),
    ensures
        !covers(s.take(i), p),
        !covers(s.skip(i + 1), p),
{
    if covers(s.take(i), p) {
        let j = choose|j: int| 0 <= j < s.take(i).len() && #[trigger] s.take(i)[j].holds(p);
        assert(s.take(i)[j] == s[j]);
        assert(s[j].start + s[j].size <= s[i].start);
    }
    if covers(s.skip(i + 1), p) {
        let j = choose|j: int| 0 <= j < s.skip(i + 1).len() && #[trigger] s.skip(i + 1)[j].holds(p);
        assert(s.skip(i + 1)[j] == s[j + i + 1]);
        assert(s[i].start + s[i].size <= s[j + i + 1].start);
    }
}

/// Carving the first fitting block out of a well-formed list takes exactly
/// the block's ports away, and the block was free and aligned.
pub proof fn lemma_carve(s: Seq<IoRange>, i: int, a: u32, size: u32, align: u32)
    requires
        ranges_wf(s),
        0 <= i < s.len(),
        fits(s[i], size, align),
        size > 0,
        is_pow2(align),
        range_no_wrap(s[i], size, align),
        a == aligned_start(s[i].start, align),
    ensures
        a % align == 0,
        s[i].start <= a,
        a + size <= s[i].start + s[i].size,
        ranges_wf(carve(s, i, a, size)),
        forall|p: int| #[trigger]
            covers(carve(s, i, a, size), p) == (covers(s, p) && !in_block(p, a, size)),
{
    lemma_range_no_wrap(s[i], size, align);
    let r = s[i];
    let st = r.start;
    let x = wadd(st, (align - 1) as u32);
    assert(x == st + align - 1);
    lemma_align_down(x, align);
    assert(wadd(a, size) == a + size);
    assert(r.end_spec() == st + r.size);
    let req_end = wadd(a, size);
    let mid: Seq<IoRange> = if a == st {
        if size == r.size {
            Seq::empty()
        } else {
            seq![IoRange { start: req_end, size: wsub(r.size, size) }]
        }
    } else {
        let left = IoRange { start: st, size: wsub(a, st) };
        let right_size = wsub(r.end_spec(), req_end);
        if right_size > 0 {
            seq![left, IoRange { start: req_end, size: right_size }]
        } else {
            seq![left]
        }
    };
    let c = carve(s, i, a, size);
    assert(c =~= s.take(i) + mid + s.skip(i + 1));
    assert(ranges_wf(mid));
    assert(within(mid, st as int, st + r.size));
    if i > 0 {
        assert(s[i - 1].start + s[i - 1].size <= s[i].start);
    }
    lemma_wf_splice(s, i, i + 1, mid, st as int, st + r.size);
    assert forall|p: int| #[trigger] covers(c, p) == (covers(s, p) && !in_block(p, a, size)) by {
        lemma_covers_splice(s, i, i + 1, mid, p);
        lemma_split3(s, i, i + 1, p);
        assert(s.subrange(i, i + 1) =~= seq![r]);
        lemma_covers_single(r, p);
        if mid.len() == 1 {
            lemma_covers_single(mid[0], p);
            assert(mid == seq![mid[0]]);
        } else if mid.len() == 2 {
            lemma_covers_pair(mid[0], mid[1], p);
            assert(mid == seq![mid[0], mid[1]]);
        }
        if r.holds(p) {
            lemma_only_owner(s, i, p);
        }
    }
}

} // verus!

verus! {

/// Giving back a block that no free range holds, at its insertion position,
/// adds exactly the block's ports and keeps the list well formed.
pub proof fn lemma_merge_free(s: Seq<IoRange>, pos: int, base: u32, size: u32)
    requires
        ranges_wf(s),
        is_insert_pos(s, pos, base),
        size > 0,
        base + size <= u32::MAX,
        forall|p: int| in_block(p, base, size) ==> !#[trigger] covers(s, p),
    ensures
        ranges_wf(merge_free(s, pos, base, size)),
        forall|p: int| #[trigger]
            covers(merge_free(s, pos, base, size), p) == (covers(s, p) || in_block(p, base, size)),
{
    let end = wadd(base, size);
    assert(end == base + size);
    let m = merge_free(s, pos, base, size);
    if pos > 0 {
        let prev = s[pos - 1];
        if prev.start + prev.size > base {
            assert(prev.holds(base as int));
            assert(covers(s, base as int));
            assert(in_block(base as int, base, size));
        }
        assert(prev.end_spec() == prev.start + prev.size);
    }
    if pos < s.len() {
        let next = s[pos];
        if next.start < end {
            assert(next.holds(next.start as int));
            assert(covers(s, next.start as int));
            assert(in_block(next.start as int, base, size));
        }
    }
    let lo: int;
    let hi: int;
    let mid: Seq<IoRange>;
    let left: int;
    let right: int;
    if pos > 0 && s[pos - 1].end_spec() == base {
        let prev = s[pos - 1];
        if pos < s.len() && s[pos].start == end {
            let next = s[pos];
            lo = pos - 1;
            hi = pos + 1;
            mid = seq![IoRange { start: prev.start, size: (prev.size + size + next.size) as u32 }];
            left = prev.start as int;
            right = next.start + next.size;
            assert(m =~= s.take(lo) + mid + s.skip(hi));
            assert(s.subrange(lo, hi) =~= seq![prev, next]);
        } else {
            lo = pos - 1;
            hi = pos;
            mid = seq![IoRange { start: prev.start, size: (prev.size + size) as u32 }];
            left = prev.start as int;
            right = base + size;
            assert(m =~= s.take(lo) + mid + s.skip(hi));
            assert(s.subrange(lo, hi) =~= seq![prev]);
        }
    } else if pos < s.len() && s[pos].start == end {
        let next = s[pos];
        lo = pos;
        hi = pos + 1;
        mid = seq![IoRange { start: base, size: (next.size + size) as u32 }];
        left = base as int;
        right = next.start + next.size;
        assert(m =~= s.take(lo) + mid + s.skip(hi));
        assert(s.subrange(lo, hi) =~= seq![next]);
    } else {
        lo = pos;
        hi = pos;
        mid = seq![IoRange { start: base, size }];
        left = base as int;
        right = base + size;
        assert(m =~= s.take(lo) + mid + s.skip(hi));
        assert(s.subrange(lo, hi) =~= Seq::<IoRange>::empty());
    }
    if lo > 0 {
        assert(s[lo - 1].start + s[lo - 1].size <= left);
    }
    if hi < s.len() {
        assert(right <= s[hi].start);
    }
    lemma_wf_splice(s, lo, hi, mid, left, right);
    assert forall|p: int| #[trigger] covers(m, p) == (covers(s, p) || in_block(p, base, size)) by {
        lemma_covers_splice(s, lo, hi, mid, p);
        lemma_split3(s, lo, hi, p);
        lemma_covers_single(mid[0], p);
        assert(mid == seq![mid[0]]);
        if hi - lo == 2 {
            lemma_covers_pair(s[lo], s[lo + 1], p);
        } else if hi - lo == 1 {
            lemma_covers_single(s[lo], p);
        }
    }
}

/// What reserving leaves of one range of a well-formed list.
proof fn lemma_reserve_one(r: IoRange, base: u32, size: u32)
    requires
        r.size > 0,
        r.start + r.size <= u32::MAX,
        base + size <= u32::MAX,
    ensures
        ranges_wf(reserve_one(r, base, wadd(base, size))),
        within(reserve_one(r, base, wadd(base, size)), r.start as int, r.start + r.size),
        forall|p: int| #[trigger]
            covers(reserve_one(r, base, wadd(base, size)), p) == (r.holds(p) && !in_block(
                p,
                base,
                size,
            )),
{
    let end = wadd(base, size);
    assert(end == base + size);
    assert(r.end_spec() == r.start + r.size);
    let t = reserve_one(r, base, end);
    assert forall|p: int| #[trigger] covers(t, p) == (r.holds(p) && !in_block(p, base, size)) by {
        if t.len() == 1 {
            lemma_covers_single(t[0], p);
            assert(t == seq![t[0]]);
        } else if t.len() == 2 {
            lemma_covers_pair(t[0], t[1], p);
            assert(t == seq![t[0], t[1]]);
        }
    }
}

proof fn lemma_reserve_seq_props(s: Seq<IoRange>, base: u32, size: u32)
    requires
        ranges_wf(s),
        base + size <= u32::MAX,
    ensures
        ranges_wf(reserve_seq(s, base, wadd(base, size))),
        s.len() > 0 ==> within(
            reserve_seq(s, base, wadd(base, size)),
            s[0].start as int,
            s.last().start + s.last().size,
        ),
        forall|p: int| #[trigger]
            covers(reserve_seq(s, base, wadd(base, size)), p) == (covers(s, p) && !in_block(
                p,
                base,
                size,
            )),
    decreases s.len(),
{
    let end = wadd(base, size);
    if s.len() == 0 {
        assert forall|p: int| #[trigger]
            covers(reserve_seq(s, base, end), p) == (covers(s, p) && !in_block(p, base, size)) by {
            lemma_covers_empty(p);
            assert(reserve_seq(s, base, end) == Seq::<IoRange>::empty());
        }
    } else {
        let init = s.drop_last();
        let r = s.last();
        assert(ranges_wf(init)) by {
            assert forall|i: int, j: int| 0 <= i < j < init.len() implies #[trigger] init[i].start
                + init[i].size <= #[trigger] init[j].start by {
                assert(init[i] == s[i] && init[j] == s[j]);
            }
            assert forall|i: int| 0 <= i < init.len() implies #[trigger] init[i].size > 0
                && init[i].start + init[i].size <= u32::MAX by {
                assert(init[i] == s[i]);
            }
        }
        lemma_reserve_seq_props(init, base, size);
        lemma_reserve_one(r, base, size);
        let a = reserve_seq(init, base, end);
        let b = reserve_one(r, base, end);
        assert(reserve_seq(s, base, end) == a + b);
        if init.len() > 0 {
            assert(init.last() == s[s.len() - 2]);
            assert(init[0] == s[0]);
            assert(s[s.len() - 2].start + s[s.len() - 2].size <= r.start);
        }
        assert forall|x: int, y: int| 0 <= x < a.len() && 0 <= y < b.len() implies #[trigger] a[x].start
            + a[x].size <= #[trigger] b[y].start by {
        }
        lemma_wf_concat(a, b);
        if init.len() > 0 {
            assert(s[0].start <= r.start);
        }
        assert(within(a + b, s[0].start as int, r.start + r.size)) by {
            assert forall|k: int| 0 <= k < (a + b).len() implies s[0].start <= #[trigger] (a
                + b)[k].start && (a + b)[k].start + (a + b)[k].size <= r.start + r.size by {
                if k < a.len() {
                    assert((a + b)[k] == a[k]);
                } else {
                    assert((a + b)[k] == b[k - a.len()]);
                }
            }
        }
        assert forall|p: int| #[trigger]
            covers(reserve_seq(s, base, end), p) == (covers(s, p) && !in_block(p, base, size)) by {
            lemma_covers_concat(a, b, p);
            assert(s == init + seq![r]);
            lemma_covers_concat(init, seq![r], p);
            lemma_covers_single(r, p);
        }
    }
}

} // verus!

verus! {

/// Freeing the block that an allocation returned gives the free list back
/// exactly the ports it had before the allocation, and, while the free
/// ranges are apart, the very same list.
pub proof fn lemma_allocate_then_free(s: Seq<IoRange>, size: u32, align: u32, i: int, pos: int)
    requires
        ranges_wf(s),
        size > 0,
        is_pow2(align),
        no_wrap(s, size, align),
        first_fit(s, size, align, i),
        is_insert_pos(
            carve(s, i, aligned_start(s[i].start, align), size),
            pos,
            aligned_start(s[i].start, align),
        ),
    ensures
        ranges_wf(
            merge_free(
                carve(s, i, aligned_start(s[i].start, align), size),
                pos,
                aligned_start(s[i].start, align),
                size,
            ),
        ),
        forall|p: int| #[trigger]
            covers(
                merge_free(
                    carve(s, i, aligned_start(s[i].start, align), size),
                    pos,
                    aligned_start(s[i].start, align),
                    size,
                ),
                p,
            ) == covers(s, p),
        ranges_apart(s) ==> merge_free(
            carve(s, i, aligned_start(s[i].start, align), size),
            pos,
            aligned_start(s[i].start, align),
            size,
        ) == s,
{
    if ranges_apart(s) {
        lemma_allocate_then_free_restores(s, size, align, i, pos);
    }
    let a = aligned_start(s[i].start, align);
    let c = carve(s, i, a, size);
    assert(range_no_wrap(s[i], size, align));
    lemma_carve(s, i, a, size, align);
    assert forall|p: int| in_block(p, a, size) implies !#[trigger] covers(c, p) by {}
    lemma_merge_free(c, pos, a, size);
    assert forall|p: int| #[trigger] covers(merge_free(c, pos, a, size), p) == covers(s, p) by {
        if in_block(p, a, size) {
            assert(s[i].holds(p));
        }
    }
}

} // verus!

verus! {

/// The free ranges are apart: each ends strictly before the next begins, so
/// two free ranges never touch (touching ranges are always merged).
pub open spec fn ranges_apart(s: Seq<IoRange>) -> bool {
    forall|i: int, j: int|
        #![trigger s[i], s[j]]
        0 <= i < j < s.len() ==> s[i].start + s[i].size < s[j].start
}

proof fn lemma_apart_concat(a: Seq<IoRange>, b: Seq<IoRange>)
    requires
        ranges_apart(a),
        ranges_apart(b),
        forall|x: int, y: int|
            #![trigger a[x], b[y]]
            0 <= x < a.len() && 0 <= y < b.len() ==> a[x].start + a[x].size < b[y].start,
    ensures
        ranges_apart(a + b),
{
    let c = a + b;
    assert forall|i: int, j: int| 0 <= i < j < c.len() implies #[trigger] c[i].start + c[i].size
        < #[trigger] c[j].start by {
        if j < a.len() {
            assert(c[i] == a[i] && c[j] == a[j]);
        } else if i >= a.len() {
            assert(c[i] == b[i - a.len()] && c[j] == b[j - a.len()]);
        } else {
            assert(c[i] == a[i] && c[j] == b[j - a.len()]);
        }
    }
}

/// Replacing ranges `[lo, hi)` of a list whose ranges are apart by ranges
/// that are apart and stay strictly between the neighbours keeps the
/// ranges apart.
proof fn lemma_apart_splice(s: Seq<IoRange>, lo: int, hi: int, mid: Seq<IoRange>, left: int, right: int)
    requires
        ranges_wf(s),
        ranges_apart(s),
        ranges_apart(mid),
        0 <= lo <= hi <= s.len(),
        within(mid, left, right),
        lo > 0 ==> s[lo - 1].start + s[lo - 1].size < left,
        hi < s.len() ==> right < s[hi].start,
    ensures
        ranges_apart(s.take(lo) + mid + s.skip(hi)),
{
    let a = s.take(lo);
    let b = s.skip(hi);
    assert(ranges_apart(a)) by {
        assert forall|i: int, j: int| 0 <= i < j < a.len() implies #[trigger] a[i].start + a[i].size
            < #[trigger] a[j].start by {
            assert(a[i] == s[i] && a[j] == s[j]);
        }
    }
    assert(ranges_apart(b)) by {
        assert forall|i: int, j: int| 0 <= i < j < b.len() implies #[trigger] b[i].start + b[i].size
            < #[trigger] b[j].start by {
            assert(b[i] == s[i + hi] && b[j] == s[j + hi]);
        }
    }
    assert forall|x: int, y: int| 0 <= x < a.len() && 0 <= y < mid.len() implies #[trigger] a[x].start
        + a[x].size < #[trigger] mid[y].start by {
        assert(a[x] == s[x]);
        if x < lo - 1 {
            assert(s[x].start + s[x].size < s[lo - 1].start);
        }
    }
    lemma_apart_concat(a, mid);
    let am = a + mid;
    assert forall|x: int, y: int| 0 <= x < am.len() && 0 <= y < b.len() implies #[trigger] am[x].start
        + am[x].size < #[trigger] b[y].start by {
        assert(b[y] == s[y + hi]);
        if y > 0 {
            assert(s[hi].start + s[hi].size < s[y + hi].start);
        }
        if x < lo {
            assert(am[x] == s[x]);
            assert(s[x].start + s[x].size < s[y + hi].start);
        } else {
            assert(am[x] == mid[x - lo]);
        }
    }
    lemma_apart_concat(am, b);
}

/// Carving a block out of a list whose ranges are apart keeps them apart.
pub proof fn lemma_carve_apart(s: Seq<IoRange>, i: int, a: u32, size: u32, align: u32)
    requires
        ranges_wf(s),
        ranges_apart(s),
        0 <= i < s.len(),
        fits(s[i], size, align),
        size > 0,
        is_pow2(align),
        range_no_wrap(s[i], size, align),
        a == aligned_start(s[i].start, align),
    ensures
        ranges_apart(carve(s, i, a, size)),
{
    lemma_carve(s, i, a, size, align);
    let r = s[i];
    let st = r.start;
    assert(wadd(a, size) == a + size);
    assert(r.end_spec() == st + r.size);
    let req_end = wadd(a, size);
    let mid: Seq<IoRange> = if a == st {
        if size == r.size {
            Seq::empty()
        } else {
            seq![IoRange { start: req_end, size: wsub(r.size, size) }]
        }
    } else {
        let left = IoRange { start: st, size: wsub(a, st) };
        let right_size = wsub(r.end_spec(), req_end);
        if right_size > 0 {
            seq![left, IoRange { start: req_end, size: right_size }]
        } else {
            seq![left]
        }
    };
    assert(carve(s, i, a, size) =~= s.take(i) + mid + s.skip(i + 1));
    assert(ranges_apart(mid));
    assert(within(mid, st as int, st + r.size));
    if i > 0 {
        assert(s[i - 1].start + s[i - 1].size < s[i].start);
    }
    if i + 1 < s.len() {
        assert(s[i].start + s[i].size < s[i + 1].start);
    }
    lemma_apart_splice(s, i, i + 1, mid, st as int, st + r.size);
}

/// Giving back a block that no free range holds keeps the ranges apart: it
/// is merged with a range that touches it.
pub proof fn lemma_merge_free_apart(s: Seq<IoRange>, pos: int, base: u32, size: u32)
    requires
        ranges_wf(s),
        ranges_apart(s),
        is_insert_pos(s, pos, base),
        size > 0,
        base + size <= u32::MAX,
        forall|p: int| in_block(p, base, size) ==> !#[trigger] covers(s, p),
    ensures
        ranges_apart(merge_free(s, pos, base, size)),
{
    let end = wadd(base, size);
    assert(end == base + size);
    let m = merge_free(s, pos, base, size);
    if pos > 0 {
        let prev = s[pos - 1];
        if prev.start + prev.size > base {
            assert(prev.holds(base as int));
            assert(covers(s, base as int));
            assert(in_block(base as int, base, size));
        }
        assert(prev.end_spec() == prev.start + prev.size);
    }
    if pos < s.len() {
        let next = s[pos];
        if next.start < end {
            assert(next.holds(next.start as int));
            assert(covers(s, next.start as int));
            assert(in_block(next.start as int, base, size));
        }
    }
    let lo: int;
    let hi: int;
    let mid: Seq<IoRange>;
    let left: int;
    let right: int;
    if pos > 0 && s[pos - 1].end_spec() == base {
        let prev = s[pos - 1];
        if pos < s.len() && s[pos].start == end {
            let next = s[pos];
            lo = pos - 1;
            hi = pos + 1;
            mid = seq![IoRange { start: prev.start, size: (prev.size + size + next.size) as u32 }];
            left = prev.start as int;
            right = next.start + next.size;
            assert(m =~= s.take(lo) + mid + s.skip(hi));
        } else {
            lo = pos - 1;
            hi = pos;
            mid = seq![IoRange { start: prev.start, size: (prev.size + size) as u32 }];
            left = prev.start as int;
            right = base + size;
            assert(m =~= s.take(lo) + mid + s.skip(hi));
        }
    } else if pos < s.len() && s[pos].start == end {
        let next = s[pos];
        lo = pos;
        hi = pos + 1;
        mid = seq![IoRange { start: base, size: (next.size + size) as u32 }];
        left = base as int;
        right = next.start + next.size;
        assert(m =~= s.take(lo) + mid + s.skip(hi));
    } else {
        lo = pos;
        hi = pos;
        mid = seq![IoRange { start: base, size }];
        left = base as int;
        right = base + size;
        assert(m =~= s.take(lo) + mid + s.skip(hi));
    }
    if lo > 0 {
        if lo == pos - 1 {
            assert(s[lo - 1].start + s[lo - 1].size < s[lo].start);
        }
        assert(s[lo - 1].start + s[lo - 1].size < left);
    }
    if hi < s.len() {
        if hi == pos + 1 {
            assert(s[pos].start + s[pos].size < s[hi].start);
        }
        assert(right < s[hi].start);
    }
    lemma_apart_splice(s, lo, hi, mid, left, right);
}

/// Reserving keeps the ranges of a list apart: what is left of one range
/// stays inside it, and a range cut in two leaves the reserved block between
/// its pieces.
pub proof fn lemma_reserve_apart(s: Seq<IoRange>, base: u32, size: u32)
    requires
        ranges_wf(s),
        ranges_apart(s),
        size > 0,
        base + size <= u32::MAX,
    ensures
        ranges_apart(reserve_seq(s, base, wadd(base, size))),
    decreases s.len(),
{
    let end = wadd(base, size);
    assert(end == base + size);
    if s.len() > 0 {
        let init = s.drop_last();
        let r = s.last();
        assert(ranges_wf(init)) by {
            assert forall|i: int, j: int| 0 <= i < j < init.len() implies #[trigger] init[i].start
                + init[i].size <= #[trigger] init[j].start by {
                assert(init[i] == s[i] && init[j] == s[j]);
            }
            assert forall|i: int| 0 <= i < init.len() implies #[trigger] init[i].size > 0
                && init[i].start + init[i].size <= u32::MAX by {
                assert(init[i] == s[i]);
            }
        }
        assert(ranges_apart(init)) by {
            assert forall|i: int, j: int| 0 <= i < j < init.len() implies #[trigger] init[i].start
                + init[i].size < #[trigger] init[j].start by {
                assert(init[i] == s[i] && init[j] == s[j]);
            }
        }
        lemma_reserve_apart(init, base, size);
        lemma_reserve_seq_props(init, base, size);
        lemma_reserve_one(r, base, size);
        let a = reserve_seq(init, base, end);
        let b = reserve_one(r, base, end);
        assert(reserve_seq(s, base, end) == a + b);
        assert(r.end_spec() == r.start + r.size);
        assert(ranges_apart(b));
        if init.len() > 0 {
            assert(init.last() == s[s.len() - 2]);
            assert(init[0] == s[0]);
            assert(s[s.len() - 2].start + s[s.len() - 2].size < r.start);
        }
        assert forall|x: int, y: int| 0 <= x < a.len() && 0 <= y < b.len() implies #[trigger] a[x].start
            + a[x].size < #[trigger] b[y].start by {
        }
        lemma_apart_concat(a, b);
    }
}

/// Freeing the block that an allocation returned, on a list whose ranges
/// are apart, gives back the very list the allocation started from.
pub proof fn lemma_allocate_then_free_restores(s: Seq<IoRange>, size: u32, align: u32, i: int, pos: int)
    requires
        ranges_wf(s),
        ranges_apart(s),
        size > 0,
        is_pow2(align),
        no_wrap(s, size, align),
        first_fit(s, size, align, i),
        is_insert_pos(
            carve(s, i, aligned_start(s[i].start, align), size),
            pos,
            aligned_start(s[i].start, align),
        ),
    ensures
        merge_free(
            carve(s, i, aligned_start(s[i].start, align), size),
            pos,
            aligned_start(s[i].start, align),
            size,
        ) == s,
{
    let a = aligned_start(s[i].start, align);
    let r = s[i];
    let st = r.start;
    assert(range_no_wrap(r, size, align));
    lemma_range_no_wrap(r, size, align);
    lemma_carve(s, i, a, size, align);
    let c = carve(s, i, a, size);
    let end = wadd(a, size);
    assert(end == a + size);
    assert(r.end_spec() == st + r.size);
    if i > 0 {
        assert(s[i - 1].start + s[i - 1].size < st);
        assert(s[i - 1].end_spec() == s[i - 1].start + s[i - 1].size);
    }
    if i + 1 < s.len() {
        assert(st + r.size < s[i + 1].start);
    }
    assert forall|j: int| 0 <= j < i implies #[trigger] s[j].start < st by {
        assert(s[j].start + s[j].size <= st);
        assert(s[j].size > 0);
    }
    if a == st {
        if size == r.size {
            assert(c == s.remove(i));
            if pos < i {
                assert(c[pos] == s[pos]);
            }
            if pos > i {
                assert(c[i] == s[i + 1]);
            }
            assert(pos == i);
            if i < c.len() {
                assert(c[i] == s[i + 1]);
            }
            if i > 0 {
                assert(c[i - 1] == s[i - 1]);
            }
            assert(merge_free(c, pos, a, size) =~= s);
        } else {
            assert(c == s.update(i, IoRange { start: end, size: wsub(r.size, size) }));
            if pos < i {
                assert(c[pos] == s[pos]);
            }
            if pos > i {
                assert(c[i].start == end);
            }
            assert(pos == i);
            if i > 0 {
                assert(c[i - 1] == s[i - 1]);
            }
            assert(merge_free(c, pos, a, size) =~= s);
        }
    } else {
        let left = IoRange { start: st, size: wsub(a, st) };
        let right_size = wsub(r.end_spec(), end);
        assert(left.end_spec() == a);
        if right_size > 0 {
            assert(c == s.update(i, left).insert(i + 1, IoRange { start: end, size: right_size }));
            if pos <= i {
                assert(c[pos].start < a);
            }
            if pos > i + 1 {
                assert(c[i + 1].start == end);
            }
            assert(pos == i + 1);
            assert(c[i] == left);
            assert(merge_free(c, pos, a, size) =~= s);
        } else {
            assert(c == s.update(i, left));
            if pos <= i {
                assert(c[pos].start < a);
            }
            if pos > i + 1 {
                assert(c[i + 1] == s[i + 1]);
            }
            assert(pos == i + 1);
            assert(c[i] == left);
            if i + 1 < c.len() {
                assert(c[i + 1] == s[i + 1]);
            }
            assert(merge_free(c, pos, a, size) =~= s);
        }
    }
}

/// On a list whose ranges are apart, the first fit gives the lowest
/// aligned block of free ports: no aligned block below it is entirely free.
pub proof fn lemma_first_fit_lowest(s: Seq<IoRange>, size: u32, align: u32, i: int, b: u32)
    requires
        ranges_wf(s),
        ranges_apart(s),
        size > 0,
        is_pow2(align),
        no_wrap(s, size, align),
        first_fit(s, size, align, i),
        b % align == 0,
        block_free(s, b, size),
    ensures
        aligned_start(s[i].start, align) <= b,
{
    assert(in_block(b as int, b, size));
    assert(covers(s, b as int));
    let k = choose|k: int| 0 <= k < s.len() && #[trigger] s[k].holds(b as int);
    let rk = s[k];
    let endk = rk.start + rk.size;
    if b + size > endk {
        assert(in_block(endk, b, size));
        assert(covers(s, endk));
        let j = choose|j: int| 0 <= j < s.len() && #[trigger] s[j].holds(endk);
        if j < k {
            assert(s[j].start + s[j].size <= s[k].start);
        } else if j > k {
            assert(s[k].start + s[k].size < s[j].start);
        }
        assert(false);
    }
    let st = rk.start;
    assert(range_no_wrap(rk, size, align));
    lemma_range_no_wrap(rk, size, align);
    let x = wadd(st, (align - 1) as u32);
    assert(x == st + align - 1);
    lemma_align_down(x, align);
    let ak = aligned_start(st, align);
    if b < ak {
        assert(b + align <= ak) by (nonlinear_arith)
            requires
                b % align == 0,
                ak % align == 0,
                b < ak,
                align > 0,
        ;
    }
    assert(ak <= b);
    assert(wadd(ak, size) == ak + size);
    assert(rk.end_spec() == endk);
    assert(fits(rk, size, align));
    if k < i {
        assert(!fits(s[k], size, align));
    }
    if i < k {
        let ri = s[i];
        assert(range_no_wrap(ri, size, align));
        lemma_range_no_wrap(ri, size, align);
        let xi = wadd(ri.start, (align - 1) as u32);
        assert(xi == ri.start + align - 1);
        lemma_align_down(xi, align);
        assert(ri.end_spec() == ri.start + ri.size);
        assert(s[i].start + s[i].size <= s[k].start);
    }
}

/// The ports of a list whose ranges end at or below `2^31` lie below `2^31`.
proof fn lemma_below_ports(s: Seq<IoRange>)
    requires
        ranges_below(s),
    ensures
        forall|p: int| #[trigger] covers(s, p) ==> p < 0x8000_0000,
{
    assert forall|p: int| #[trigger] covers(s, p) implies p < 0x8000_0000 by {
        let j = choose|j: int| 0 <= j < s.len() && #[trigger] s[j].holds(p);
    }
}

/// A well-formed list whose ports all lie below `2^31` ends at or below it.
proof fn lemma_below_by_ports(t: Seq<IoRange>)
    requires
        ranges_wf(t),
        forall|p: int| #[trigger] covers(t, p) ==> p < 0x8000_0000,
    ensures
        ranges_below(t),
{
    assert forall|i: int| 0 <= i < t.len() implies #[trigger] t[i].start + t[i].size <= 0x8000_0000 by {
        let p = t[i].start + t[i].size - 1;
        assert(t[i].holds(p));
        assert(covers(t, p));
    }
}

} // verus!
