//! A buddy allocator over a range of physical memory: free blocks are kept
//! per level, a block of one level splitting into two buddies of the next.
use vstd::prelude::*;

verus! {

/// `2^n`.
pub open spec fn two_pow(n: nat) -> nat
    decreases n,
{
    if n == 0 {
        1
    } else {
        2 * two_pow((n - 1) as nat)
    }
}

/// Calls `x86_64::PhysAddr::new`, which returns the address unchanged when
/// bits 52 to 63 are clear, and panics otherwise; the precondition leaves
/// those addresses out.
#[verifier::external_body]
fn x86_phys_addr(addr: u64) -> (r: u64)
    requires
        addr < 0x10_0000_0000_0000,
    ensures
        r == addr,
{
    x86_64::PhysAddr::new(addr).as_u64()
}

/// A buddy allocator over `[start_addr, end_addr)`: level 0 is one block
/// of `max_size` bytes, each level below halves the block size. The free
/// list of each level holds the numbers of its free blocks.
#[derive(Debug)]
pub struct BuddyAllocator {
    pub start_addr: u64,
    pub end_addr: u64,
    pub num_levels: u8,
    pub block_size: u16,
    pub free_lists: Vec<Vec<u32>>,
}

impl BuddyAllocator {
    /// The free lists as sequences.
    pub open spec fn lists(&self) -> Seq<Seq<u32>> {
        self.free_lists@.map_values(|v: Vec<u32>| v@)
    }

    /// One free list per level, fewer than 32 levels, a level-0 block that
    /// fits in the address width, and every block number of a level within
    /// that level.
    pub open spec fn wf(&self) -> bool {
        &&& self.num_levels < 32
        &&& self.max_size_spec() <= usize::MAX
        &&& self.lists().len() == self.num_levels + 1
        &&& forall|k: int, i: int|
            0 <= k < self.lists().len() && 0 <= i < self.lists()[k].len() ==> (#[trigger] self.lists()[k][i]
                as nat) < two_pow(k as nat)
    }

    /// Size in bytes of the level-0 block.
    pub open spec fn max_size_spec(&self) -> nat {
        self.block_size as nat * two_pow(self.num_levels as nat)
    }

    /// Size in bytes of a block of level `l`.
    pub open spec fn level_bytes(&self, l: int) -> nat {
        self.block_size as nat * two_pow((self.num_levels - l) as nat)
    }

    /// The level whose blocks a request of `size` bytes gets: the deepest
    /// level whose blocks still hold `size` bytes.
    pub open spec fn request_level(&self, size: nat) -> int {
        choose|l: int|
            0 <= l <= self.num_levels && #[trigger] self.level_bytes(l) >= size && (l < self.num_levels
                ==> self.level_bytes(l + 1) < size)
    }

    /// Whether a request of `s` bytes can be served: it fits in the level-0
    /// block and a block of its level, or of a level above, is free.
    pub open spec fn can_allocate(&self, s: nat) -> bool {
        s <= self.max_size_spec() && source_level(self.lists(), self.request_level(s)) >= 0
    }

    /// The address a request of `s` bytes gets: the block taken from the
    /// nearest level with a free block, split down to the request's level.
    pub open spec fn allocation_addr(&self, s: nat) -> int {
        let l = self.request_level(s);
        let src = source_level(self.lists(), l);
        self.start_addr + self.lists()[src].last() * two_pow((l - src) as nat) * self.level_bytes(l)
    }

    /// The free lists after serving a request of `s` bytes.
    pub open spec fn lists_after_allocation(&self, s: nat) -> Seq<Seq<u32>> {
        let l = self.request_level(s);
        let src = source_level(self.lists(), l);
        split_lists(self.lists(), l, src, self.lists()[src].last())
    }

    /// The free lists after freeing the block of `size` bytes at
    /// `alignment` (the larger counts) at `addr`: its number at the
    /// request's level joins that level and is merged with its free
    /// buddies; nothing changes for a request larger than the level-0 block.
    pub open spec fn lists_after_dealloc(&self, addr: u64, size: usize, alignment: usize) -> Seq<Seq<u32>> {
        let s = if size >= alignment { size } else { alignment };
        if s > self.max_size_spec() {
            self.lists()
        } else {
            let l = self.request_level(s as nat);
            let b = ((addr - self.start_addr) / (self.level_bytes(l) as int)) as u32;
            merged(self.lists().update(l, self.lists()[l].push(b)), l, b)
        }
    }

    /// Size in bytes of the level-0 block: the block size doubled once per level.
    pub fn max_size(&self) -> (r: usize)
        requires
            self.num_levels < 32,
            self.max_size_spec() <= usize::MAX,
        ensures
            r == self.max_size_spec(),
    {
        proof {
            lemma_shift_is_pow(self.block_size as u64, self.num_levels as u64);
        }
        ((self.block_size as u64) << (self.num_levels as u64)) as usize
    }

    /// An allocator over `[start_addr, end_addr)` with one free block at
    /// level 0. The level count grows while `block_size << block_size` is
    /// below the range's length, which never changes, so the range must be
    /// at most that long (the loop would not end otherwise) and the
    /// allocator always has a single level.
    pub fn new(start_addr: u64, end_addr: u64, block_size: u16) -> (r: BuddyAllocator)
        requires
            start_addr <= end_addr,
            block_size < 64,
            ((block_size as u64) << (block_size as u64)) >= end_addr - start_addr,
        ensures
            r.wf(),
            r.start_addr == start_addr && r.end_addr == end_addr && r.block_size == block_size,
            r.num_levels == 0,
            r.lists() == seq![seq![0u32]],
    {
        let mut num_levels: u8 = 0;
        while ((block_size as u64) << (block_size as u64)) < end_addr - start_addr
            invariant
                num_levels == 0,
                ((block_size as u64) << (block_size as u64)) >= end_addr - start_addr,
                start_addr <= end_addr,
                block_size < 64,
            decreases 0nat,
        {
            num_levels = num_levels + 1;
        }
        let mut free_lists: Vec<Vec<u32>> = Vec::new();
        let mut first: Vec<u32> = Vec::new();
        first.push(0);
        free_lists.push(first);
        let r = BuddyAllocator { start_addr, end_addr, num_levels, block_size, free_lists };
        assert(r.lists() =~= seq![seq![0u32]]);
        assert(two_pow(0) == 1);
        r
    }

    /// The level whose blocks a request of `size` bytes gets: none when it
    /// exceeds the level-0 block; else the deepest level, down to the last,
    /// whose blocks still hold `size` bytes.
    pub fn req_size_to_level(&self, size: usize) -> (r: Option<usize>)
        requires
            self.wf(),
            size > 0,
        ensures
            size > self.max_size_spec() ==> r is None,
            size <= self.max_size_spec() ==> r == Some(self.request_level(size as nat) as usize),
            size <= self.max_size_spec() ==> 0 <= self.request_level(size as nat) <= self.num_levels
                && self.level_bytes(self.request_level(size as nat)) >= size,
    {
        let max_size = self.max_size();
        if size > max_size {
            return None;
        }
        proof {
            lemma_shift_is_pow(self.block_size as u64, self.num_levels as u64);
        }
        let m = max_size as u64;
        assert(m >> 0u64 == m) by (bit_vector);
        let mut next_level: u64 = 1;
        while (m >> next_level) >= size as u64
            invariant
                1 <= next_level <= 48,
                m < 0x1_0000_0000_0000,
                size > 0,
                (m >> ((next_level - 1) as u64)) >= size,
            decreases 48 - next_level,
        {
            proof {
                let n = next_level;
                assert(m < 0x1_0000_0000_0000 && n >= 48 ==> m >> n == 0) by (bit_vector);
            }
            next_level = next_level + 1;
        }
        let lvl = (next_level - 1) as usize;
        let req_level = if lvl < self.num_levels as usize { lvl } else { self.num_levels as usize };
        proof {
            if lvl >= self.num_levels {
                let a = req_level as u64;
                let b = (next_level - 1) as u64;
                assert(a <= b ==> (m >> a) >= (m >> b)) by (bit_vector);
            }
            let l = req_level as int;
            self.lemma_shift_level(l);
            if l < self.num_levels {
                self.lemma_shift_level(l + 1);
            }
            self.lemma_request_level_unique(size as nat, l);
        }
        Some(req_level)
    }

    /// Takes a free block of `level`: from its own free list if there is
    /// one, else by splitting a block of the nearest level above that has
    /// one, leaving the right halves free on the way down.
    pub fn get_free_block(&mut self, level: usize) -> (r: Option<u32>)
        requires
            old(self).wf(),
            level <= old(self).num_levels,
        ensures
            final(self).wf(),
            final(self).start_addr == old(self).start_addr && final(self).end_addr == old(self).end_addr,
            final(self).num_levels == old(self).num_levels && final(self).block_size == old(self).block_size,
            ({
                let l = source_level(old(self).lists(), level as int);
                if l < 0 {
                    r is None && final(self).lists() == old(self).lists()
                } else {
                    let b = old(self).lists()[l].last();
                    &&& r == Some((b * two_pow((level - l) as nat)) as u32)
                    &&& final(self).lists() == split_lists(old(self).lists(), level as int, l, b)
                }
            }),
    {
        let ghost fl = self.lists();
        let mut l: usize = level + 1;
        while l > 0 && self.free_lists[l - 1].len() == 0
            invariant
                fl == self.lists(),
                self.lists().len() == self.num_levels + 1,
                level <= self.num_levels,
                l <= level + 1,
                source_level(fl, l - 1) == source_level(fl, level as int),
            decreases l,
        {
            l = l - 1;
        }
        if l == 0 {
            return None;
        }
        let src = l - 1;
        assert(source_level(fl, src as int) == src);
        let b = self.free_lists[src].pop().unwrap();
        let mut cur: u32 = b;
        let mut k: usize = src;
        proof {
            lemma_two_pow_bound(src as nat);
            assert(self.lists() =~= fl.update(src as int, fl[src as int].drop_last()));
            assert(two_pow(0) == 1);
            assert(b * two_pow(0) == b);
        }
        while k < level
            invariant
                old(self).wf(),
                fl == old(self).lists(),
                self.num_levels == old(self).num_levels && self.block_size == old(self).block_size,
                self.start_addr == old(self).start_addr && self.end_addr == old(self).end_addr,
                fl[src as int].len() > 0,
                self.free_lists@.len() == self.num_levels + 1,
                forall|j: int| src < j <= k ==> (b * two_pow((j - src) as nat) + 1) < #[trigger] two_pow(j as nat),
                src <= k <= level,
                level <= self.num_levels,
                self.num_levels < 32,
                b == fl[src as int].last(),
                cur == b * two_pow((k - src) as nat),
                cur < two_pow(k as nat),
                self.lists() == Seq::new(
                    fl.len(),
                    |j: int|
                        if j == src {
                            fl[src as int].drop_last()
                        } else if src < j <= k {
                            fl[j].push((b * two_pow((j - src) as nat) + 1) as u32)
                        } else {
                            fl[j]
                        },
                ),
            decreases level - k,
        {
            proof {
                lemma_two_pow_bound((k + 1) as nat);
                let tk = two_pow((k - src) as nat);
                assert(two_pow((k + 1 - src) as nat) == 2 * tk);
                assert(b * (2 * tk) == 2 * (b * tk)) by (nonlinear_arith);
                assert(two_pow((k + 1) as nat) == 2 * two_pow(k as nat));
            }
            k = k + 1;
            let ghost before = self.lists();
            self.free_lists[k].push(cur * 2 + 1);
            cur = cur * 2;
            proof {
                assert(self.lists() =~= before.update(k as int, before[k as int].push((b * two_pow((k - src) as nat) + 1) as u32)));
            }
        }
        proof {
            assert(self.lists() =~= split_lists(fl, level as int, src as int, b));
            assert forall|k2: int, i: int|
                0 <= k2 < self.lists().len() && 0 <= i < self.lists()[k2].len() implies (#[trigger] self.lists()[k2][i]
                    as nat) < two_pow(k2 as nat) by {
                if k2 == src {
                    assert(self.lists()[k2][i] == fl[k2][i]);
                } else if src < k2 <= level {
                    if i < fl[k2].len() {
                        assert(self.lists()[k2][i] == fl[k2][i]);
                    }
                } else {
                    assert(self.lists()[k2][i] == fl[k2][i]);
                }
            }
        }
        Some(cur)
    }

    /// Takes a block of `level` by splitting one of the level above (taken
    /// as `get_free_block` takes it): its right half is left free and its
    /// left half is returned. Level 0 cannot be split into.
    pub fn split_level(&mut self, level: usize) -> (r: Option<u32>)
        requires
            old(self).wf(),
            level <= old(self).num_levels,
        ensures
            final(self).wf(),
            final(self).start_addr == old(self).start_addr && final(self).end_addr == old(self).end_addr,
            final(self).num_levels == old(self).num_levels && final(self).block_size == old(self).block_size,
            level == 0 ==> r is None && final(self).lists() == old(self).lists(),
            level > 0 ==> ({
                let l = source_level(old(self).lists(), level - 1);
                if l < 0 {
                    r is None && final(self).lists() == old(self).lists()
                } else {
                    let b = old(self).lists()[l].last();
                    &&& r == Some((b * two_pow((level - l) as nat)) as u32)
                    &&& final(self).lists() == split_lists(old(self).lists(), level as int, l, b)
                }
            }),
    {
        if level == 0 {
            return None;
        }
        let ghost fl = self.lists();
        match self.get_free_block(level - 1) {
            None => None,
            Some(block) => {
                let ghost l = source_level(fl, level - 1);
                let ghost b = fl[l].last();
                proof {
                    lemma_two_pow_bound((level - 1) as nat);
                    lemma_two_pow_bound(level as nat);
                    lemma_source_level(fl, level - 1);
                    assert(l >= 0);
                    let last = old(self).lists()[l].len() - 1;
                    assert(old(self).lists()[l][last] == b);
                    assert((old(self).lists()[l][last] as nat) < two_pow(l as nat));
                    let n = (level - l) as nat;
                    let t = two_pow((level - 1 - l) as nat);
                    assert(n > 0);
                    assert(two_pow(n) == 2 * two_pow((n - 1) as nat));
                    assert((n - 1) as nat == (level - 1 - l) as nat);
                    assert(two_pow((level - l) as nat) == 2 * t);
                    assert(b * (2 * t) == 2 * (b * t)) by (nonlinear_arith);
                    lemma_block_below(fl, l, b, (level - 1 - l) as nat);
                    assert(two_pow(level as nat) == 2 * two_pow((level - 1) as nat));
                    assert(block == b * t);
                    assert(block * 2 + 1 == b * two_pow((level - l) as nat) + 1);
                }
                let ghost before = self.lists();
                self.free_lists[level].push(block * 2 + 1);
                proof {
                    assert(self.lists() =~= before.update(level as int, before[level as int].push((block * 2 + 1) as u32)));
                    assert(before == split_lists(fl, (level - 1) as int, l, b));
                    assert(self.lists() =~= split_lists(fl, level as int, l, b));
                    assert forall|k2: int, i: int|
                        0 <= k2 < self.lists().len() && 0 <= i < self.lists()[k2].len() implies (
                        #[trigger] self.lists()[k2][i] as nat) < two_pow(k2 as nat) by {
                        if k2 != level || i < before[k2].len() {
                            assert(self.lists()[k2][i] == before[k2][i]);
                        }
                    }
                }
                Some(block * 2)
            },
        }
    }

    /// Merges block `block_num`, just freed at `level` (the last entry of
    /// its list), with its buddy while the buddy is free: both leave the
    /// level and their parent is freed on the level above.
    pub fn merge_buddies(&mut self, level: usize, block_num: u32)
        requires
            old(self).wf(),
            level <= old(self).num_levels,
            old(self).lists()[level as int].len() > 0,
            old(self).lists()[level as int].last() == block_num,
        ensures
            final(self).wf(),
            final(self).lists() == merged(old(self).lists(), level as int, block_num),
            final(self).start_addr == old(self).start_addr && final(self).end_addr == old(self).end_addr,
            final(self).num_levels == old(self).num_levels && final(self).block_size == old(self).block_size,
        decreases level,
    {
        let ghost fl = self.lists();
        let buddy_block = block_num ^ 1;
        let len = self.free_lists[level].len();
        let mut i: usize = 0;
        while i < len && self.free_lists[level][i] != buddy_block
            invariant
                fl == self.lists(),
                self.free_lists@.len() == self.num_levels + 1,
                level <= self.num_levels,
                len == fl[level as int].len(),
                i <= len,
                forall|j: int| 0 <= j < i ==> fl[level as int][j] != buddy_block,
            decreases len - i,
        {
            i = i + 1;
        }
        if i == len {
            proof {
                assert(first_index(fl[level as int], buddy_block) == -1);
            }
            return;
        }
        let ghost idx = i as int;
        proof {
            let last = fl[level as int].len() - 1;
            assert((fl[level as int][last] as nat) < two_pow(level as nat));
            if level == 0 {
                assert(two_pow(0) == 1);
                assert(block_num == 0);
                assert(0u32 ^ 1u32 == 1u32) by (bit_vector);
                assert(fl[0][idx] < two_pow(0));
                assert(false);
            }
            assert(block_num ^ 1u32 != block_num) by (bit_vector);
            assert(first_index(fl[level as int], buddy_block) == idx) by {
                let k = choose|k: int| 0 <= k < fl[level as int].len() && fl[level as int][k] == buddy_block
                    && forall|j: int| 0 <= j < k ==> fl[level as int][j] != buddy_block;
                assert(fl[level as int][idx] == buddy_block);
                if k < idx {
                } else if k > idx {
                }
            }
            assert(idx < last);
        }
        self.free_lists[level].pop();
        self.free_lists[level].remove(i);
        let parent = block_num / 2;
        self.free_lists[level - 1].push(parent);
        proof {
            let fl1 = fl.update(level as int, fl[level as int].drop_last().remove(idx)).update(
                level - 1,
                fl[level - 1].push(block_num / 2),
            );
            assert(self.lists() =~= fl1);
            assert(two_pow(level as nat) == 2 * two_pow((level - 1) as nat));
            assert forall|k2: int, j: int|
                0 <= k2 < self.lists().len() && 0 <= j < self.lists()[k2].len() implies (#[trigger] self.lists()[k2][j]
                    as nat) < two_pow(k2 as nat) by {
                if k2 == level {
                    let s0 = fl[level as int].drop_last();
                    if j < idx {
                        assert(self.lists()[k2][j] == s0[j]);
                        assert(s0[j] == fl[k2][j]);
                    } else {
                        assert(self.lists()[k2][j] == s0[j + 1]);
                        assert(s0[j + 1] == fl[k2][j + 1]);
                    }
                } else if k2 == level - 1 {
                    if j < fl[k2].len() {
                        assert(self.lists()[k2][j] == fl[k2][j]);
                    }
                } else {
                    assert(self.lists()[k2][j] == fl[k2][j]);
                }
            }
        }
        self.merge_buddies(level - 1, parent);
    }

    /// Allocates a block for `size` bytes at `alignment` (the larger of the
    /// two is requested): the block of the request's level that
    /// `get_free_block` takes; returns its physical address. `None` when
    /// the request exceeds the level-0 block or no block is free.
    pub fn allocate(&mut self, size: usize, alignment: usize) -> (r: Option<u64>)
        requires
            old(self).wf(),
            size > 0 || alignment > 0,
            old(self).can_allocate(request_size(size, alignment)) ==> old(self).allocation_addr(
                request_size(size, alignment),
            ) < 0x10_0000_0000_0000,
        ensures
            final(self).wf(),
            final(self).start_addr == old(self).start_addr && final(self).end_addr == old(self).end_addr,
            final(self).num_levels == old(self).num_levels && final(self).block_size == old(self).block_size,
            r is Some <==> old(self).can_allocate(request_size(size, alignment)),
            r is None ==> final(self).lists() == old(self).lists(),
            r matches Some(a) ==> a == old(self).allocation_addr(request_size(size, alignment))
                && final(self).lists() == old(self).lists_after_allocation(request_size(size, alignment)),
    {
        let size = if size >= alignment { size } else { alignment };
        let req_level = match self.req_size_to_level(size) {
            None => return None,
            Some(l) => l,
        };
        let ghost fl = self.lists();
        let max_size = self.max_size();
        let block = match self.get_free_block(req_level) {
            None => return None,
            Some(b) => b,
        };
        proof {
            let l = req_level as int;
            lemma_source_level(fl, l);
            let src = source_level(fl, l);
            let b = fl[src].last();
            let last = fl[src].len() - 1;
            assert(fl[src][last] == b);
            lemma_block_below(fl, src, b, (l - src) as nat);
            old(self).lemma_shift_level(l);
            lemma_two_pow_bound(l as nat);
            lemma_shift_is_pow(old(self).block_size as u64, old(self).num_levels as u64);
            old(self).lemma_level_split(l);
            let lb = old(self).level_bytes(l);
            let t = two_pow(l as nat);
            let mx = old(self).max_size_spec();
            assert(lb >= size && size > 0);
            assert(block * lb < mx) by (nonlinear_arith)
                requires
                    block < t,
                    t * lb == mx,
                    lb > 0,
            ;
        }
        let offset = block as u64 * ((max_size >> req_level) as u64);
        Some(x86_phys_addr(self.start_addr + offset))
    }

    /// Frees the block of `size` bytes at `alignment` (the larger of the two
    /// counts) at `addr`: its number at the request's level goes on that
    /// level's free list and is merged with its buddies while they are free.
    /// Nothing happens when the request exceeds the level-0 block.
    pub fn dealloc(&mut self, addr: u64, size: usize, alignment: usize)
        requires
            old(self).wf(),
            size > 0 || alignment > 0,
            old(self).start_addr <= addr < old(self).start_addr + old(self).max_size_spec(),
        ensures
            final(self).wf(),
            final(self).start_addr == old(self).start_addr && final(self).end_addr == old(self).end_addr,
            final(self).num_levels == old(self).num_levels && final(self).block_size == old(self).block_size,
            final(self).lists() == old(self).lists_after_dealloc(addr, size, alignment),
    {
        let size = if size >= alignment { size } else { alignment };
        let req_level = match self.req_size_to_level(size) {
            None => return,
            Some(l) => l,
        };
        let max_size = self.max_size();
        let level_block_size = max_size >> req_level;
        proof {
            let l = req_level as int;
            old(self).lemma_shift_level(l);
            lemma_two_pow_bound(l as nat);
            lemma_shift_is_pow(old(self).block_size as u64, old(self).num_levels as u64);
            old(self).lemma_level_split(l);
            assert(level_block_size as u64 == (max_size as u64) >> (req_level as u64)) by (bit_vector)
                requires
                    level_block_size == max_size >> req_level,
                    req_level < 32,
            ;
            let lb = old(self).level_bytes(l);
            let t = two_pow(l as nat);
            let d = (addr - old(self).start_addr) as int;
            assert(lb >= size);
            assert(d / (lb as int) < t) by (nonlinear_arith)
                requires
                    0 <= d < t * lb,
                    lb > 0,
            ;
        }
        let block_num = ((addr - self.start_addr) as usize / level_block_size) as u32;
        let ghost before = self.lists();
        self.free_lists[req_level].push(block_num);
        proof {
            assert(self.lists() =~= before.update(req_level as int, before[req_level as int].push(block_num)));
            assert forall|k2: int, j: int|
                0 <= k2 < self.lists().len() && 0 <= j < self.lists()[k2].len() implies (#[trigger] self.lists()[k2][j]
                    as nat) < two_pow(k2 as nat) by {
                if k2 != req_level || j < before[k2].len() {
                    assert(self.lists()[k2][j] == before[k2][j]);
                }
            }
        }
        self.merge_buddies(req_level, block_num);
    }

    /// Freeing what an allocation returned, with the same request, gives
    /// back the free lists the allocator had before it: the address leads
    /// back to the block taken, and freeing it merges away every split the
    /// allocation made, as long as no block was free together with its buddy.
    pub proof fn lemma_allocate_then_dealloc(&self, s: nat)
        requires
            self.wf(),
            no_free_buddies(self.lists()),
            0 < s <= self.max_size_spec(),
            0 <= self.request_level(s) <= self.num_levels,
            self.level_bytes(self.request_level(s)) >= s,
            source_level(self.lists(), self.request_level(s)) >= 0,
        ensures
            ({
                let l = self.request_level(s);
                let src = source_level(self.lists(), l);
                let b = self.lists()[src].last();
                let addr = self.start_addr + b * two_pow((l - src) as nat) * self.level_bytes(l);
                let blk = ((addr - self.start_addr) / (self.level_bytes(l) as int)) as u32;
                let taken = split_lists(self.lists(), l, src, b);
                merged(taken.update(l, taken[l].push(blk)), l, blk) == self.lists()
            }),
    {
        let fl = self.lists();
        let l = self.request_level(s);
        lemma_source_level(fl, l);
        let src = source_level(fl, l);
        let b = fl[src].last();
        let lb = self.level_bytes(l);
        let p = b * two_pow((l - src) as nat);
        assert(lb > 0);
        assert((p * lb) / (lb as int) == p) by (nonlinear_arith)
            requires
                lb > 0,
                p >= 0,
        ;
        assert(blocks_in_levels(fl)) by {
            assert forall|k: int, i: int| 0 <= k < fl.len() && 0 <= i < fl[k].len() implies (#[trigger] fl[k][i]
                as nat) < two_pow(k as nat) by {
                assert(self.lists()[k][i] == fl[k][i]);
            }
        }
        lemma_take_then_free(fl, l);
    }

    /// A request that fits in the level-0 block has a level: the deepest
    /// one whose blocks still hold it.
    /// A block that can be allocated lies inside the allocator's memory.
    pub proof fn lemma_allocation_in_range(&self, s: nat)
        requires
            self.wf(),
            s > 0,
            self.can_allocate(s),
        ensures
            self.start_addr <= self.allocation_addr(s) < self.start_addr + self.max_size_spec(),
    {
        lemma_two_pow_mono(0, self.num_levels as nat);
        assert(two_pow(0) == 1);
        assert(self.level_bytes(0) == self.max_size_spec()) by {
            assert((self.num_levels - 0) as nat == self.num_levels as nat);
        }
        self.lemma_request_level_exists(s, 0);
        let fl = self.lists();
        let l = self.request_level(s);
        lemma_source_level(fl, l);
        let src = source_level(fl, l);
        let b = fl[src].last();
        let last = fl[src].len() - 1;
        assert(fl[src][last] == b);
        lemma_block_below(fl, src, b, (l - src) as nat);
        self.lemma_level_split(l);
        let lb = self.level_bytes(l);
        let t = two_pow(l as nat);
        let mx = self.max_size_spec();
        let blk = b * two_pow((l - src) as nat);
        assert(blk * lb < mx) by (nonlinear_arith)
            requires
                blk < t,
                t * lb == mx,
                lb >= s,
                s > 0,
        ;
        assert(0 <= blk * lb) by (nonlinear_arith)
            requires
                blk >= 0,
                lb >= 0,
        ;
        assert(b * two_pow((l - src) as nat) * lb == blk * lb);
    }

    proof fn lemma_request_level_exists(&self, s: nat, l: int)
        requires
            0 <= l <= self.num_levels,
            self.level_bytes(l) >= s,
        ensures
            0 <= self.request_level(s) <= self.num_levels,
            self.level_bytes(self.request_level(s)) >= s,
        decreases self.num_levels - l,
    {
        if l < self.num_levels && self.level_bytes(l + 1) >= s {
            self.lemma_request_level_exists(s, l + 1);
        } else {
            assert(0 <= l <= self.num_levels && self.level_bytes(l) >= s && (l < self.num_levels
                ==> self.level_bytes(l + 1) < s));
        }
    }

    /// Freeing, with the same request, the address an allocation returned
    /// gives back the free lists the allocator had before the allocation,
    /// as long as no block was free together with its buddy: `after` is the
    /// allocator once `allocate` served the request.
    pub proof fn lemma_free_what_was_allocated(&self, after: BuddyAllocator, size: usize, alignment: usize)
        requires
            self.wf(),
            no_free_buddies(self.lists()),
            request_size(size, alignment) > 0,
            self.can_allocate(request_size(size, alignment)),
            after.start_addr == self.start_addr,
            after.num_levels == self.num_levels,
            after.block_size == self.block_size,
            after.lists() == self.lists_after_allocation(request_size(size, alignment)),
            self.start_addr + self.max_size_spec() <= 0x10_0000_0000_0000,
        ensures
            after.lists_after_dealloc(self.allocation_addr(request_size(size, alignment)) as u64, size, alignment)
                == self.lists(),
    {
        let s = request_size(size, alignment);
        assert(two_pow(0) == 1);
        assert(self.level_bytes(0) == self.max_size_spec());
        self.lemma_request_level_exists(s, 0);
        self.lemma_allocate_then_dealloc(s);
        let l = self.request_level(s);
        let fl = self.lists();
        lemma_source_level(fl, l);
        let src = source_level(fl, l);
        let b = fl[src].last();
        lemma_block_below(fl, src, b, (l - src) as nat);
        self.lemma_level_split(l);
        let lb = self.level_bytes(l);
        let p = b * two_pow((l - src) as nat);
        let t = two_pow(l as nat);
        assert(p * lb + lb <= t * lb) by (nonlinear_arith)
            requires
                p < t,
                lb > 0,
        ;
        assert(p * lb >= 0) by (nonlinear_arith)
            requires
                p >= 0,
                lb > 0,
        ;
        assert forall|k: int| #[trigger] after.level_bytes(k) == self.level_bytes(k) by {}
        after.lemma_request_level_unique(s, l);
        assert(after.max_size_spec() == self.max_size_spec());
        assert(after.request_level(s) == l);
    }

    /// `2^l` blocks of level `l` make up the level-0 block.
    proof fn lemma_level_split(&self, l: int)
        requires
            0 <= l <= self.num_levels,
        ensures
            two_pow(l as nat) * self.level_bytes(l) == self.max_size_spec(),
    {
        lemma_two_pow_adds(l as nat, (self.num_levels - l) as nat);
        let x = self.block_size as nat;
        let a = two_pow(l as nat);
        let b = two_pow((self.num_levels - l) as nat);
        assert(a * (x * b) == x * (a * b)) by (nonlinear_arith);
    }

    /// The level-0 size shifted right `l` times is the size of a level-`l` block.
    proof fn lemma_shift_level(&self, l: int)
        requires
            self.num_levels < 32,
            self.block_size < 0x1_0000,
            0 <= l <= self.num_levels,
        ensures
            (self.max_size_spec() as u64) >> (l as u64) == self.level_bytes(l),
    {
        let x = self.block_size as u64;
        let n = self.num_levels as u64;
        let k = l as u64;
        lemma_shift_is_pow(x, n);
        lemma_shift_is_pow(x, (n - k) as u64);
        assert((x << n) >> k == x << ((n - k) as u64)) by (bit_vector)
            requires
                x < 0x1_0000,
                n < 32,
                k <= n,
        ;
    }

    /// The level `request_level` names is the one level that fits.
    proof fn lemma_request_level_unique(&self, size: nat, l: int)
        requires
            0 <= l <= self.num_levels,
            self.level_bytes(l) >= size,
            l < self.num_levels ==> self.level_bytes(l + 1) < size,
        ensures
            self.request_level(size) == l,
    {
        let k = self.request_level(size);
        assert(0 <= k <= self.num_levels && self.level_bytes(k) >= size && (k < self.num_levels
            ==> self.level_bytes(k + 1) < size));
        if k < l {
            self.lemma_level_bytes_mono(k + 1, l);
        } else if l < k {
            self.lemma_level_bytes_mono(l + 1, k);
        }
    }

    /// Blocks of deeper levels are no larger.
    proof fn lemma_level_bytes_mono(&self, a: int, b: int)
        requires
            0 <= a <= b <= self.num_levels,
        ensures
            self.level_bytes(b) <= self.level_bytes(a),
    {
        lemma_two_pow_mono((self.num_levels - b) as nat, (self.num_levels - a) as nat);
        let x = self.block_size as nat;
        let p = two_pow((self.num_levels - b) as nat);
        let q = two_pow((self.num_levels - a) as nat);
        assert(x * p <= x * q) by (nonlinear_arith)
            requires
                p <= q,
        ;
    }

    /// Whether `addr` lies in the allocator's range.
    pub fn contains(&self, addr: u64) -> (r: bool)
        ensures
            r == (self.start_addr <= addr < self.end_addr),
    {
        addr >= self.start_addr && addr < self.end_addr
    }
}

/// Highest level at or below `level` whose free list is not empty, or -1.
pub open spec fn source_level(fl: Seq<Seq<u32>>, level: int) -> int
    decreases level + 1,
{
    if level < 0 {
        -1
    } else if fl[level].len() > 0 {
        level
    } else {
        source_level(fl, level - 1)
    }
}

/// The free lists after taking block `b` from level `l` and splitting it
/// down to `level`: the right half made at each level below `l` down to
/// `level` becomes free there.
pub open spec fn split_lists(fl: Seq<Seq<u32>>, level: int, l: int, b: u32) -> Seq<Seq<u32>> {
    Seq::new(
        fl.len(),
        |k: int|
            if k == l {
                fl[l].drop_last()
            } else if l < k <= level {
                fl[k].push((b * two_pow((k - l) as nat) + 1) as u32)
            } else {
                fl[k]
            },
    )
}

/// Index of the first `x` in `s`, or -1.
pub open spec fn first_index(s: Seq<u32>, x: u32) -> int {
    if exists|i: int| 0 <= i < s.len() && s[i] == x {
        choose|i: int| 0 <= i < s.len() && s[i] == x && forall|j: int| 0 <= j < i ==> s[j] != x
    } else {
        -1
    }
}

/// The free lists after block `b`, just freed at `level` (the last entry
/// of its list), is merged with its buddy as long as the buddy is free:
/// both leave the level and their parent is freed one level up, where the
/// merging goes on.
pub open spec fn merged(fl: Seq<Seq<u32>>, level: int, b: u32) -> Seq<Seq<u32>>
    decreases level,
{
    if level <= 0 || level >= fl.len() {
        fl
    } else {
        let idx = first_index(fl[level], b ^ 1u32);
        if idx < 0 {
            fl
        } else {
            let fl1 = fl.update(level, fl[level].drop_last().remove(idx)).update(
                level - 1,
                fl[level - 1].push(b / 2),
            );
            merged(fl1, level - 1, b / 2)
        }
    }
}

proof fn lemma_source_level(fl: Seq<Seq<u32>>, level: int)
    requires
        -1 <= level < fl.len(),
    ensures
        -1 <= source_level(fl, level) <= level,
        source_level(fl, level) >= 0 ==> fl[source_level(fl, level)].len() > 0,
    decreases level + 1,
{
    if level >= 0 && fl[level].len() == 0 {
        lemma_source_level(fl, level - 1);
    }
}

proof fn lemma_block_below(fl: Seq<Seq<u32>>, l: int, b: u32, j: nat)
    requires
        0 <= l,
        (b as nat) < two_pow(l as nat),
    ensures
        b * two_pow(j) < two_pow((l + j) as nat),
    decreases j,
{
    if j == 0 {
        assert(two_pow(0) == 1);
        assert(b * two_pow(0) == b);
    } else {
        lemma_block_below(fl, l, b, (j - 1) as nat);
        let t = two_pow((j - 1) as nat);
        assert(two_pow(j) == 2 * t);
        assert(b * (2 * t) == 2 * (b * t)) by (nonlinear_arith);
        assert(two_pow((l + j) as nat) == 2 * two_pow((l + j - 1) as nat));
    }
}

/// No block is free together with its buddy, on any level below the top.
pub open spec fn no_free_buddies(fl: Seq<Seq<u32>>) -> bool {
    forall|k: int, i: int, j: int|
        1 <= k < fl.len() && 0 <= i < fl[k].len() && 0 <= j < fl[k].len() ==> #[trigger] fl[k][i] != (
        #[trigger] fl[k][j] ^ 1u32)
}

/// Every block number of a level lies within the level.
pub open spec fn blocks_in_levels(fl: Seq<Seq<u32>>) -> bool {
    forall|k: int, i: int| 0 <= k < fl.len() && 0 <= i < fl[k].len() ==> (#[trigger] fl[k][i] as nat) < two_pow(k as nat)
}

proof fn lemma_source_level_empty_above(fl: Seq<Seq<u32>>, level: int, k: int)
    requires
        -1 <= level < fl.len(),
        source_level(fl, level) < k <= level,
    ensures
        fl[k].len() == 0,
    decreases level + 1,
{
    if level >= 0 && fl[level].len() == 0 && k < level {
        lemma_source_level_empty_above(fl, level - 1, k);
    }
}

proof fn lemma_even_buddy(x: u32)
    by (bit_vector)
    requires
        x % 2 == 0,
        x < 0xFFFF_FFFF,
    ensures
        x ^ 1u32 == ((x + 1) as u32),
        ((x + 1) as u32) / 2 == x / 2,
{
}

/// Taking a block of `level` as `get_free_block` does, then freeing it
/// again (it goes on its level's list and is merged with free buddies),
/// gives back the free lists one started from, as long as no block was
/// free together with its buddy.
pub proof fn lemma_take_then_free(fl: Seq<Seq<u32>>, level: int)
    requires
        0 <= level < fl.len() <= 32,
        blocks_in_levels(fl),
        no_free_buddies(fl),
        source_level(fl, level) >= 0,
    ensures
        ({
            let src = source_level(fl, level);
            let b = fl[src].last();
            let blk = (b * two_pow((level - src) as nat)) as u32;
            let taken = split_lists(fl, level, src, b);
            merged(taken.update(level, taken[level].push(blk)), level, blk) == fl
        }),
    decreases level,
{
    lemma_source_level(fl, level);
    let src = source_level(fl, level);
    let b = fl[src].last();
    let last = fl[src].len() - 1;
    assert(fl[src][last] == b);
    lemma_block_below(fl, src, b, (level - src) as nat);
    lemma_two_pow_bound(level as nat);
    let blk = (b * two_pow((level - src) as nat)) as u32;
    let taken = split_lists(fl, level, src, b);
    let put = taken.update(level, taken[level].push(blk));
    if level == src {
        assert(two_pow(0) == 1);
        let one = two_pow(0);
        assert(b * one == b) by (nonlinear_arith)
            requires
                one == 1,
        ;
        assert((level - src) as nat == 0);
        assert(put[level] =~= fl[level]);
        assert(put =~= fl);
        if level > 0 {
            assert(first_index(fl[level], b ^ 1u32) == -1) by {
                if exists|i: int| 0 <= i < fl[level].len() && fl[level][i] == (b ^ 1u32) {
                    let i = choose|i: int| 0 <= i < fl[level].len() && fl[level][i] == (b ^ 1u32);
                    assert(fl[level][i] != (fl[level][last] ^ 1u32));
                }
            }
        }
    } else {
        lemma_source_level_empty_above(fl, level, level);
        let t = two_pow((level - 1 - src) as nat);
        assert(two_pow((level - src) as nat) == 2 * t);
        assert(b * (2 * t) == 2 * (b * t)) by (nonlinear_arith);
        let half = (b * t) as u32;
        assert(blk == 2 * half);
        lemma_even_buddy(blk);
        assert(put[level] =~= seq![(blk + 1) as u32, blk]);
        assert(first_index(put[level], blk ^ 1u32) == 0) by {
            let k = choose|k: int| 0 <= k < put[level].len() && put[level][k] == (blk ^ 1u32)
                && forall|j: int| 0 <= j < k ==> put[level][j] != (blk ^ 1u32);
            assert(put[level][0] == (blk ^ 1u32));
        }
        let fl1 = put.update(level, put[level].drop_last().remove(0)).update(level - 1, put[level - 1].push(blk / 2));
        assert(merged(put, level, blk) == merged(fl1, level - 1, blk / 2));
        // the lists after taking the block one level up, with its half freed again
        let taken1 = split_lists(fl, level - 1, src, b);
        assert(blk / 2 == half);
        assert(fl1 =~= taken1.update(level - 1, taken1[level - 1].push(half))) by {
            assert(put[level].drop_last().remove(0) =~= Seq::<u32>::empty());
            assert(fl[level] =~= Seq::<u32>::empty());
        }
        lemma_take_then_free(fl, level - 1);
        assert(source_level(fl, level - 1) == src);
    }
}

proof fn lemma_two_pow_adds(a: nat, b: nat)
    ensures
        two_pow(a) * two_pow(b) == two_pow(a + b),
    decreases a,
{
    if a == 0 {
        assert(two_pow(0) == 1);
        assert(1 * two_pow(b) == two_pow(b));
    } else {
        lemma_two_pow_adds((a - 1) as nat, b);
        let p = two_pow((a - 1) as nat);
        let q = two_pow(b);
        assert(two_pow(a) == 2 * p);
        assert(two_pow(a + b) == 2 * two_pow((a - 1 + b) as nat));
        assert((2 * p) * q == 2 * (p * q)) by (nonlinear_arith);
    }
}

/// The size a request asks for: the larger of its size and alignment.
pub open spec fn request_size(size: usize, alignment: usize) -> nat {
    if size >= alignment { size as nat } else { alignment as nat }
}

proof fn lemma_two_pow_mono(n: nat, m: nat)
    requires
        n <= m,
    ensures
        1 <= two_pow(n) <= two_pow(m),
    decreases m,
{
    if m > n {
        lemma_two_pow_mono(n, (m - 1) as nat);
    } else if n > 0 {
        lemma_two_pow_mono((n - 1) as nat, (n - 1) as nat);
    }
}

proof fn lemma_two_pow_bound(n: nat)
    requires
        n < 32,
    ensures
        1 <= two_pow(n) <= 0x8000_0000,
{
    lemma_two_pow_mono(n, 31);
    assert(two_pow(31) == 0x8000_0000) by {
        reveal_with_fuel(two_pow, 32);
    }
}

proof fn lemma_shift_is_pow(x: u64, n: u64)
    requires
        x < 0x1_0000,
        n < 32,
    ensures
        x << n == x * two_pow(n as nat),
        x * two_pow(n as nat) < 0x1_0000_0000_0000,
    decreases n,
{
    lemma_two_pow_bound(n as nat);
    let t = two_pow(n as nat);
    assert(x * t < 0x1_0000_0000_0000) by (nonlinear_arith)
        requires
            x < 0x1_0000,
            t <= 0x8000_0000,
    ;
    if n == 0 {
        assert(x << 0u64 == x) by (bit_vector);
        assert(t == 1);
        assert(x * t == x) by (nonlinear_arith)
            requires
                t == 1,
        ;
    } else {
        let m = (n - 1) as u64;
        lemma_shift_is_pow(x, m);
        let tm = two_pow(m as nat);
        assert(t == 2 * tm);
        assert(x * t == 2 * (x * tm)) by (nonlinear_arith)
            requires
                t == 2 * tm,
        ;
        let xm = x << m;
        assert(x << n == xm * 2) by (bit_vector)
            requires
                x < 0x1_0000,
                n < 32,
                m == n - 1,
                xm == x << m,
        ;
        assert(xm == x * tm);
    }
}

/// What a search for a run of contiguous frames found.
#[derive(Debug, Clone, Copy, PartialEq, Eq)]
pub enum BuddyMemoryAreaRequest {
    /// A run of exactly the requested size.
    Success((u64, u64)),
    /// A shorter run, cut into the largest power-of-two areas it holds.
    SmallerThanReq((u64, u64), Option<(u64, u64)>),
    /// Nothing usable.
    Fail,
}

/// Whether `m` is the size `get_largest_page_multiple` picks for a range of
/// `len` bytes: half the first of 4096, 8192, 16384, ... above `len`.
pub open spec fn page_multiple(len: nat, m: nat) -> bool {
    exists|k: nat|
        #![trigger two_pow(k)]
        m * 2 == 4096 * two_pow(k) && 4096 * two_pow(k) > len && (k == 0 || 4096 * two_pow((k - 1) as nat) <= len)
}

/// The area at the start of `[start, end)` whose size is the largest
/// power-of-two multiple of 4096 the range holds (2048 for a range under a
/// page); `None` for an empty range.
pub fn get_largest_page_multiple(start: u64, end: u64) -> (r: Option<(u64, u64)>)
    requires
        start <= end,
        end + 4096 <= 0x10_0000_0000_0000,
    ensures
        start == end ==> r is None,
        start < end ==> (r matches Some((a, b)) && a == start && page_multiple((end - start) as nat, (b - a) as nat)
            && b > a),
{
    let mem_len = end - start;
    if mem_len == 0 {
        return None;
    }
    let mut page_mult: u64 = 4096;
    let ghost mut k: nat = 0;
    proof {
        assert(two_pow(0) == 1);
    }
    while page_mult <= mem_len
        invariant
            mem_len == end - start,
            mem_len < 0x10_0000_0000_0000,
            page_mult == 4096 * two_pow(k),
            k == 0 || 4096 * two_pow((k - 1) as nat) <= mem_len,
            page_mult <= 2 * 0x10_0000_0000_0000,
        decreases 2 * 0x10_0000_0000_0000 - page_mult,
    {
        proof {
            lemma_two_pow_mono(0, k);
            assert(page_mult >= 4096);
            assert(two_pow(k + 1) == 2 * two_pow(k));
            assert(page_mult << 1u64 == page_mult * 2) by (bit_vector)
                requires
                    page_mult <= 0x10_0000_0000_0000,
            ;
        }
        page_mult = page_mult << 1;
        proof {
            k = k + 1;
            assert((k - 1) as nat == (k - 1));
        }
    }
    proof {
        assert(page_mult >> 1u64 == page_mult / 2) by (bit_vector);
        lemma_two_pow_bound(0);
        if k == 0 {
            assert(two_pow(0) == 1);
        } else {
            assert(two_pow(k) == 2 * two_pow((k - 1) as nat));
        }
    }
    let half = page_mult >> 1;
    let a = x86_phys_addr(start);
    Some((a, x86_phys_addr(a + half)))
}

/// Where a scan for contiguous frames goes after the frame allocator
/// handed out `next` (`None`: it had no more): a frame right after the run
/// extends it, which ends the scan once it reaches `mem_size`; any other
/// frame, or none, ends the scan.
pub fn scan_step(first: u64, last: u64, next: Option<u64>, mem_size: u64) -> (r: (u64, bool))
    requires
        first <= last,
        last + 4096 <= u64::MAX,
    ensures
        match next {
            Some(p) if p == last => r == (
                (last + 4096) as u64,
                last + 4096 - first != mem_size,
            ),
            _ => r == (last, false),
        },
{
    match next {
        Some(p) => {
            if p == last {
                let new_last = last + 4096;
                (new_last, new_last - first != mem_size)
            } else {
                (last, false)
            }
        },
        None => (last, false),
    }
}

/// What a scanned run of frames `[first, last)` gives for a request of
/// `mem_size` bytes: the run itself when it is that long, else its largest
/// power-of-two area and the largest one after it.
pub open spec fn classified(first: u64, last: u64, mem_size: u64, r: BuddyMemoryAreaRequest) -> bool {
    &&& last - first == mem_size ==> r == BuddyMemoryAreaRequest::Success((first, last))
    &&& last - first != mem_size ==> (r matches BuddyMemoryAreaRequest::SmallerThanReq((a, b), second)
        && a == first && a < b && page_multiple((last - first) as nat, (b - a) as nat) && b <= last
        && (b == last ==> second is None)
        && (b < last ==> (second matches Some((c, d)) && c == b && c < d && page_multiple((last - b) as nat, (d - c) as nat))))
}

/// What a scanned run of frames `[first, last)` gives for a request of
/// `mem_size` bytes: the run itself when it is that long, else its largest
/// power-of-two area and the largest one after it.
pub fn classify_area(first: u64, last: u64, mem_size: u64) -> (r: BuddyMemoryAreaRequest)
    requires
        first + 4096 <= last,
        last + 4096 <= 0x10_0000_0000_0000,
    ensures
        classified(first, last, mem_size, r),
        last - first == mem_size ==> r == BuddyMemoryAreaRequest::Success((first, last)),
        last - first != mem_size ==> (r matches BuddyMemoryAreaRequest::SmallerThanReq((a, b), second)
            && a == first && page_multiple((last - first) as nat, (b - a) as nat) && b <= last
            && (b == last ==> second is None)
            && (b < last ==> (second matches Some((c, d)) && c == b && page_multiple((last - b) as nat, (d - c) as nat)))),
{
    if last - first == mem_size {
        return BuddyMemoryAreaRequest::Success((first, last));
    }
    match get_largest_page_multiple(first, last) {
        Some(area) => {
            proof {
                let len = (last - first) as nat;
                let m = (area.1 - area.0) as nat;
                let k = choose|k: nat|
                    #![trigger two_pow(k)]
                    m * 2 == 4096 * two_pow(k) && 4096 * two_pow(k) > len && (k == 0 || 4096 * two_pow((k - 1) as nat) <= len);
                if k == 0 {
                    assert(two_pow(0) == 1);
                } else {
                    assert(two_pow(k) == 2 * two_pow((k - 1) as nat));
                }
            }
            let second = get_largest_page_multiple(area.1, last);
            BuddyMemoryAreaRequest::SmallerThanReq(area, second)
        },
        None => BuddyMemoryAreaRequest::Fail,
    }
}

/// Where a scan for contiguous frames ends and how far its run reaches:
/// the frames are those the frame allocator hands out, in order, from
/// position `p`; the run `[first, last)` grows while each frame is the one
/// right after it, and ends once it is `mem_size` bytes long, at a frame
/// that does not follow it (which is used up), or when the frames run out.
pub open spec fn run_end(frames: Seq<u64>, p: int, first: u64, last: u64, mem_size: u64) -> (int, u64)
    decreases frames.len() - p,
{
    if p < 0 || p >= frames.len() {
        (p, last)
    } else if frames[p] == last {
        let nl = (last + 4096) as u64;
        if nl - first == mem_size {
            (p + 1, nl)
        } else {
            run_end(frames, p + 1, first, nl, mem_size)
        }
    } else {
        (p + 1, last)
    }
}

/// Every frame lies low enough that a run through it stays below the top
/// of physical addresses.
pub open spec fn frames_in_range(frames: Seq<u64>) -> bool {
    forall|i: int| 0 <= i < frames.len() ==> #[trigger] frames[i] + 8192 <= 0x10_0000_0000_0000
}

proof fn lemma_run_end(frames: Seq<u64>, p: int, first: u64, last: u64, mem_size: u64)
    requires
        0 <= p <= frames.len(),
        first + 4096 <= last,
        last + 4096 <= 0x10_0000_0000_0000,
        frames_in_range(frames),
    ensures
        p <= run_end(frames, p, first, last, mem_size).0 <= frames.len(),
        run_end(frames, p, first, last, mem_size).1 + 4096 <= 0x10_0000_0000_0000,
        last <= run_end(frames, p, first, last, mem_size).1,
        run_end(frames, p, first, last, mem_size).1 - first <= (last - first) + 4096 * (run_end(
            frames,
            p,
            first,
            last,
            mem_size,
        ).0 - p),
    decreases frames.len() - p,
{
    if p < frames.len() && frames[p] == last {
        let nl = (last + 4096) as u64;
        if nl - first != mem_size {
            lemma_run_end(frames, p + 1, first, nl, mem_size);
        }
    }
}

/// A scan never moves back, nor past the last frame.
pub proof fn lemma_run_end_advances(frames: Seq<u64>, p: int, first: u64, last: u64, mem_size: u64)
    requires
        0 <= p <= frames.len(),
    ensures
        p <= run_end(frames, p, first, last, mem_size).0 <= frames.len(),
    decreases frames.len() - p,
{
    if p < frames.len() && frames[p] == last {
        let nl = (last + 4096) as u64;
        if nl - first != mem_size {
            lemma_run_end_advances(frames, p + 1, first, nl, mem_size);
        }
    }
}

/// When `mem_size` is a whole number of pages and the run is still shorter,
/// the run never grows past `mem_size`.
proof fn lemma_run_within_size(frames: Seq<u64>, p: int, first: u64, last: u64, mem_size: u64)
    requires
        0 <= p <= frames.len(),
        first + 4096 <= last,
        last + 4096 <= 0x10_0000_0000_0000,
        frames_in_range(frames),
        (last - first) % 4096 == 0,
        mem_size % 4096 == 0,
        last - first < mem_size,
    ensures
        run_end(frames, p, first, last, mem_size).1 - first <= mem_size,
    decreases frames.len() - p,
{
    if p < frames.len() && frames[p] == last {
        let nl = (last + 4096) as u64;
        let len = (last - first) as int;
        assert(len + 4096 <= mem_size && (len + 4096) % 4096 == 0) by (nonlinear_arith)
            requires
                len % 4096 == 0,
                mem_size % 4096 == 0,
                len < mem_size,
        ;
        if nl - first != mem_size {
            lemma_run_within_size(frames, p + 1, first, nl, mem_size);
        }
    }
}

/// Whether a scan for `mem_size` bytes from position `p` of the frames
/// adds the memory areas `areas`, in order, ends with `found` (a run of
/// exactly `mem_size` bytes was found; else the frames ran out) and leaves
/// the position at `q`: each run found that is not `mem_size` long adds its
/// largest power-of-two area and, when that does not fill the run, the
/// largest one after it, and the scan goes on from where the run ended.
pub open spec fn area_scan(frames: Seq<u64>, p: int, mem_size: u64, areas: Seq<(u64, u64)>, found: bool, q: int) -> bool
    decreases frames.len() - p,
{
    if p < 0 || p >= frames.len() {
        areas.len() == 0 && !found && q == p
    } else {
        let first = frames[p];
        let run = run_end(frames, p + 1, first, (first + 4096) as u64, mem_size);
        if run.1 - first == mem_size {
            found && q == run.0 && areas == seq![(first, run.1)]
        } else {
            proof {
                lemma_run_end_advances(frames, p + 1, first, (first + 4096) as u64, mem_size);
            }
            &&& areas.len() >= 1
            &&& areas[0].0 == first
            &&& areas[0].0 < areas[0].1 <= run.1
            &&& page_multiple((run.1 - first) as nat, (areas[0].1 - areas[0].0) as nat)
            &&& if areas[0].1 == run.1 {
                area_scan(frames, run.0, mem_size, areas.subrange(1, areas.len() as int), found, q)
            } else {
                &&& areas.len() >= 2
                &&& areas[1].0 == areas[0].1
                &&& areas[1].0 < areas[1].1
                &&& page_multiple((run.1 - areas[0].1) as nat, (areas[1].1 - areas[1].0) as nat)
                &&& area_scan(frames, run.0, mem_size, areas.subrange(2, areas.len() as int), found, q)
            }
        }
    }
}

/// The memory areas of the allocators in `after` past those of `before`.
pub open spec fn added_areas(before: Seq<BuddyAllocator>, after: Seq<BuddyAllocator>) -> Seq<(u64, u64)> {
    Seq::new(
        (after.len() - before.len()) as nat,
        |i: int| (after[before.len() + i].start_addr, after[before.len() + i].end_addr),
    )
}

/// A power-of-two area found in a range is no longer than the range, or
/// is the half page given for a range shorter than a page.
proof fn lemma_page_multiple_bound(len: nat, m: nat)
    requires
        page_multiple(len, m),
    ensures
        m <= len || m == 2048,
        m >= 2048,
{
    let k = choose|k: nat|
        #![trigger two_pow(k)]
        m * 2 == 4096 * two_pow(k) && 4096 * two_pow(k) > len && (k == 0 || 4096 * two_pow((k - 1) as nat) <= len);
    lemma_two_pow_mono(0, k);
    assert(two_pow(0) == 1);
    if k > 0 {
        assert(two_pow(k) == 2 * two_pow((k - 1) as nat));
    }
}

impl BuddyAllocatorManager {
/// Takes frames from the frame allocator (here, the frames it hands out in
/// order, from position `*pos`, which moves past each frame taken) and
/// finds a run of contiguous frames of `mem_size` bytes: `Fail` when no
/// frame is left; else the run that `run_end` finds from the first frame,
/// as `classify_area` describes it.
pub fn get_memory_area_with_size(frames: &[u64], pos: &mut usize, mem_size: u64) -> (r: BuddyMemoryAreaRequest)
    requires
        frames_in_range(frames@),
    ensures
        *old(pos) >= frames@.len() ==> r == BuddyMemoryAreaRequest::Fail && *final(pos) == *old(pos),
        *old(pos) < frames@.len() ==> ({
            let first = frames@[*old(pos) as int];
            let run = run_end(frames@, *old(pos) + 1, first, (first + 4096) as u64, mem_size);
            &&& *final(pos) == run.0
            &&& classified(first, run.1, mem_size, r)
        }),
{
    if *pos >= frames.len() {
        return BuddyMemoryAreaRequest::Fail;
    }
    let first = frames[*pos];
    *pos = *pos + 1;
    let mut last = first + 4096;
    let ghost target = run_end(frames@, *pos as int, first, last, mem_size);
    loop
        invariant_except_break
            run_end(frames@, *pos as int, first, last, mem_size) == target,
        invariant
            frames_in_range(frames@),
            *pos <= frames@.len(),
            first + 4096 <= last,
            last + 4096 <= 0x10_0000_0000_0000,
        ensures
            (*pos as int, last) == target,
            first + 4096 <= last,
            last + 4096 <= 0x10_0000_0000_0000,
        decreases frames@.len() - *pos,
    {
        if *pos >= frames.len() {
            break;
        }
        let next = frames[*pos];
        let (new_last, go_on) = scan_step(first, last, Some(next), mem_size);
        *pos = *pos + 1;
        last = new_last;
        if !go_on {
            break;
        }
    }
    classify_area(first, last, mem_size)
}
}

/// The buddy allocators of the memory areas the kernel handed over, tried
/// in the order the areas were added.
pub struct BuddyAllocatorManager {
    pub buddy_allocators: Vec<BuddyAllocator>,
}

impl BuddyAllocatorManager {
    /// Every allocator is well formed and its memory lies below the top of
    /// physical addresses.
    pub open spec fn wf(&self) -> bool {
        forall|i: int|
            0 <= i < self.buddy_allocators@.len() ==> (#[trigger] self.buddy_allocators@[i]).wf()
                && self.buddy_allocators@[i].start_addr + self.buddy_allocators@[i].max_size_spec()
                <= 0x10_0000_0000_0000
    }

    /// A manager with no memory yet.
    pub fn new() -> (r: BuddyAllocatorManager)
        ensures
            r.wf(),
            r.buddy_allocators@.len() == 0,
    {
        BuddyAllocatorManager { buddy_allocators: Vec::new() }
    }

    /// Adds an allocator over `[start_addr, end_addr)`.
    pub fn add_memory_area(&mut self, start_addr: u64, end_addr: u64, block_size: u16)
        requires
            old(self).wf(),
            start_addr <= end_addr,
            block_size < 64,
            ((block_size as u64) << (block_size as u64)) >= end_addr - start_addr,
            start_addr + block_size <= 0x10_0000_0000_0000,
        ensures
            final(self).wf(),
            final(self).buddy_allocators@.len() == old(self).buddy_allocators@.len() + 1,
            forall|i: int| 0 <= i < old(self).buddy_allocators@.len() ==> #[trigger] final(self).buddy_allocators@[i]
                == old(self).buddy_allocators@[i],
            final(self).buddy_allocators@.last().start_addr == start_addr,
            final(self).buddy_allocators@.last().end_addr == end_addr,
            final(self).buddy_allocators@.last().lists() == seq![seq![0u32]],
    {
        let a = BuddyAllocator::new(start_addr, end_addr, block_size);
        proof {
            assert(two_pow(0) == 1);
            assert(a.max_size_spec() == block_size as nat * 1);
        }
        self.buddy_allocators.push(a);
        proof {
            assert forall|i: int| 0 <= i < self.buddy_allocators@.len() implies (#[trigger] self.buddy_allocators@[i]).wf()
                && self.buddy_allocators@[i].start_addr + self.buddy_allocators@[i].max_size_spec()
                <= 0x10_0000_0000_0000 by {
                if i < old(self).buddy_allocators@.len() {
                    assert(self.buddy_allocators@[i] == old(self).buddy_allocators@[i]);
                }
            }
        }
    }

    /// Adds memory areas made of frames from the frame allocator (the frames
    /// it hands out, in order, from position `*pos`) until a run of
    /// `mem_size` bytes is found and added (gives `true`); each shorter run
    /// found on the way adds its power-of-two areas. Gives `false` once the
    /// frames run out. The areas added, in order, and where the position
    /// ends are those `area_scan` describes. An allocator is only made for
    /// an area of at most `block_size << block_size` bytes (see
    /// `BuddyAllocator::new`): that bound must reach `mem_size` when it is a
    /// whole number of at least two pages (no run then grows past it), or
    /// else span every frame left to scan.
    pub fn add_memory_area_with_size(&mut self, frames: &[u64], pos: &mut usize, mem_size: u64, block_size: u16) -> (r:
        bool)
        requires
            old(self).wf(),
            frames_in_range(frames@),
            *old(pos) <= frames@.len(),
            block_size < 64,
            (mem_size % 4096 == 0 && mem_size >= 8192 && ((block_size as u64) << (block_size as u64)) >= mem_size)
                || ((block_size as u64) << (block_size as u64)) >= 4096 * (frames@.len() - *old(pos)),
        ensures
            final(self).wf(),
            *old(pos) <= *final(pos) <= frames@.len(),
            final(self).buddy_allocators@.len() >= old(self).buddy_allocators@.len(),
            forall|i: int|
                0 <= i < old(self).buddy_allocators@.len() ==> #[trigger] final(self).buddy_allocators@[i]
                    == old(self).buddy_allocators@[i],
            forall|i: int|
                old(self).buddy_allocators@.len() <= i < final(self).buddy_allocators@.len() ==> (
                #[trigger] final(self).buddy_allocators@[i]).lists() == seq![seq![0u32]],
            area_scan(
                frames@,
                *old(pos) as int,
                mem_size,
                added_areas(old(self).buddy_allocators@, final(self).buddy_allocators@),
                r,
                *final(pos) as int,
            ),
    {
        proof {
            assert forall|rest: Seq<(u64, u64)>, f: bool, q: int|
                #[trigger] area_scan(frames@, *pos as int, mem_size, rest, f, q) implies area_scan(
                frames@,
                *old(pos) as int,
                mem_size,
                added_areas(old(self).buddy_allocators@, self.buddy_allocators@) + rest,
                f,
                q,
            ) by {
                assert(added_areas(old(self).buddy_allocators@, self.buddy_allocators@) + rest =~= rest);
            }
        }
        loop
            invariant
                self.wf(),
                frames_in_range(frames@),
                *old(pos) <= *pos <= frames@.len(),
                block_size < 64,
                (mem_size % 4096 == 0 && mem_size >= 8192 && ((block_size as u64) << (block_size as u64))
                    >= mem_size) || ((block_size as u64) << (block_size as u64)) >= 4096 * (frames@.len()
                    - *old(pos)),
                self.buddy_allocators@.len() >= old(self).buddy_allocators@.len(),
                forall|i: int|
                    0 <= i < old(self).buddy_allocators@.len() ==> #[trigger] self.buddy_allocators@[i]
                        == old(self).buddy_allocators@[i],
                forall|i: int|
                    old(self).buddy_allocators@.len() <= i < self.buddy_allocators@.len() ==> (
                    #[trigger] self.buddy_allocators@[i]).lists() == seq![seq![0u32]],
                forall|rest: Seq<(u64, u64)>, f: bool, q: int|
                    #[trigger] area_scan(frames@, *pos as int, mem_size, rest, f, q) ==> area_scan(
                        frames@,
                        *old(pos) as int,
                        mem_size,
                        added_areas(old(self).buddy_allocators@, self.buddy_allocators@) + rest,
                        f,
                        q,
                    ),
            decreases frames@.len() - *pos,
        {
            let ghost p0 = *pos as int;
            let ghost before = self.buddy_allocators@;
            let req = Self::get_memory_area_with_size(frames, pos, mem_size);
            proof {
                if p0 < frames@.len() {
                    let first = frames@[p0];
                    lemma_run_end(frames@, p0 + 1, first, (first + 4096) as u64, mem_size);
                    if mem_size % 4096 == 0 && mem_size >= 8192 {
                        lemma_run_within_size(frames@, p0 + 1, first, (first + 4096) as u64, mem_size);
                    }
                }
            }
            match req {
                BuddyMemoryAreaRequest::Success((start, end)) => {
                    self.add_memory_area(start, end, block_size);
                    proof {
                        let this = seq![(start, end)];
                        assert(area_scan(frames@, p0, mem_size, this, true, *pos as int));
                        assert(added_areas(old(self).buddy_allocators@, self.buddy_allocators@) =~= added_areas(
                            old(self).buddy_allocators@,
                            before,
                        ) + this);
                    }
                    return true;
                },
                BuddyMemoryAreaRequest::SmallerThanReq((start, end), second) => {
                    proof {
                        let first = frames@[p0];
                        let run = run_end(frames@, p0 + 1, first, (first + 4096) as u64, mem_size);
                        lemma_page_multiple_bound((run.1 - first) as nat, (end - start) as nat);
                    }
                    self.add_memory_area(start, end, block_size);
                    let ghost mid = self.buddy_allocators@;
                    match second {
                        Some((s2, e2)) => {
                            proof {
                                let first = frames@[p0];
                                let run = run_end(frames@, p0 + 1, first, (first + 4096) as u64, mem_size);
                                lemma_page_multiple_bound((run.1 - end) as nat, (e2 - s2) as nat);
                            }
                            self.add_memory_area(s2, e2, block_size);
                        },
                        None => {},
                    }
                    proof {
                        let this = match second {
                            Some((s2, e2)) => seq![(start, end), (s2, e2)],
                            None => seq![(start, end)],
                        };
                        assert(added_areas(old(self).buddy_allocators@, self.buddy_allocators@) =~= added_areas(
                            old(self).buddy_allocators@,
                            before,
                        ) + this);
                        assert forall|rest: Seq<(u64, u64)>, f: bool, q: int|
                            #[trigger] area_scan(frames@, *pos as int, mem_size, rest, f, q) implies area_scan(
                            frames@,
                            *old(pos) as int,
                            mem_size,
                            added_areas(old(self).buddy_allocators@, self.buddy_allocators@) + rest,
                            f,
                            q,
                        ) by {
                            let all = this + rest;
                            assert(all.subrange(this.len() as int, all.len() as int) =~= rest);
                            assert(area_scan(frames@, p0, mem_size, all, f, q));
                            assert(added_areas(old(self).buddy_allocators@, before) + all =~= added_areas(
                                old(self).buddy_allocators@,
                                self.buddy_allocators@,
                            ) + rest);
                        }
                    }
                },
                BuddyMemoryAreaRequest::Fail => {
                    proof {
                        let none = Seq::<(u64, u64)>::empty();
                        assert(area_scan(frames@, p0, mem_size, none, false, p0));
                        assert(added_areas(old(self).buddy_allocators@, before) + none =~= added_areas(
                            old(self).buddy_allocators@,
                            self.buddy_allocators@,
                        ));
                    }
                    return false;
                },
            }
        }
    }

    /// Serves a request from the first allocator that can: returns its
    /// position and the address it gave.
    pub fn allocate(&mut self, size: usize, alignment: usize) -> (r: Option<(usize, u64)>)
        requires
            old(self).wf(),
            size > 0 || alignment > 0,
        ensures
            final(self).wf(),
            final(self).buddy_allocators@.len() == old(self).buddy_allocators@.len(),
            match r {
                Some((i, a)) => {
                    &&& i < old(self).buddy_allocators@.len()
                    &&& old(self).buddy_allocators@[i as int].can_allocate(request_size(size, alignment))
                    &&& forall|j: int| 0 <= j < i ==> !(#[trigger] old(self).buddy_allocators@[j]).can_allocate(
                        request_size(size, alignment),
                    )
                    &&& a == old(self).buddy_allocators@[i as int].allocation_addr(request_size(size, alignment))
                    &&& final(self).buddy_allocators@[i as int].lists() == old(self).buddy_allocators@[i as int].lists_after_allocation(
                        request_size(size, alignment),
                    )
                    &&& forall|j: int| 0 <= j < old(self).buddy_allocators@.len() && j != i ==> (
                        #[trigger] final(self).buddy_allocators@[j]).lists() == old(self).buddy_allocators@[j].lists()
                },
                None => forall|j: int| 0 <= j < old(self).buddy_allocators@.len() ==> !(
                #[trigger] old(self).buddy_allocators@[j]).can_allocate(request_size(size, alignment))
                    && final(self).buddy_allocators@[j].lists() == old(self).buddy_allocators@[j].lists(),
            },
    {
        let n = self.buddy_allocators.len();
        let mut i: usize = 0;
        while i < n
            invariant
                n == old(self).buddy_allocators@.len(),
                self.buddy_allocators@.len() == n,
                i <= n,
                self.wf(),
                size > 0 || alignment > 0,
                forall|j: int| 0 <= j < i ==> !(#[trigger] old(self).buddy_allocators@[j]).can_allocate(
                    request_size(size, alignment),
                ),
                forall|j: int| 0 <= j < n ==> (#[trigger] self.buddy_allocators@[j]).lists()
                    == old(self).buddy_allocators@[j].lists(),
                forall|j: int| i <= j < n ==> #[trigger] self.buddy_allocators@[j] == old(self).buddy_allocators@[j],
            decreases n - i,
        {
            let ghost before = self.buddy_allocators@;
            assert(before[i as int] == old(self).buddy_allocators@[i as int]);
            assert(before[i as int].wf());
            proof {
                if before[i as int].can_allocate(request_size(size, alignment)) {
                    before[i as int].lemma_allocation_in_range(request_size(size, alignment));
                }
            }
            let res = self.buddy_allocators[i].allocate(size, alignment);
            proof {
                assert forall|j: int| 0 <= j < self.buddy_allocators@.len() implies (#[trigger] self.buddy_allocators@[j]).wf()
                    && self.buddy_allocators@[j].start_addr + self.buddy_allocators@[j].max_size_spec()
                    <= 0x10_0000_0000_0000 by {
                    if j != i {
                        assert(self.buddy_allocators@[j] == before[j]);
                    }
                }
            }
            match res {
                Some(addr) => {
                    return Some((i, addr));
                },
                None => {},
            }
            i = i + 1;
        }
        None
    }

    /// Frees a block with the first allocator whose range holds `addr`;
    /// returns that allocator's position, `None` when none holds it.
    pub fn deallocate(&mut self, addr: u64, size: usize, alignment: usize) -> (r: Option<usize>)
        requires
            old(self).wf(),
            size > 0 || alignment > 0,
            forall|j: int|
                0 <= j < old(self).buddy_allocators@.len() && (#[trigger] old(self).buddy_allocators@[j]).start_addr
                    <= addr < old(self).buddy_allocators@[j].end_addr ==> addr < old(self).buddy_allocators@[j].start_addr
                    + old(self).buddy_allocators@[j].max_size_spec(),
        ensures
            final(self).wf(),
            final(self).buddy_allocators@.len() == old(self).buddy_allocators@.len(),
            match r {
                Some(i) => {
                    &&& i < old(self).buddy_allocators@.len()
                    &&& old(self).buddy_allocators@[i as int].start_addr <= addr < old(self).buddy_allocators@[i as int].end_addr
                    &&& forall|j: int| 0 <= j < i ==> !((#[trigger] old(self).buddy_allocators@[j]).start_addr <= addr
                        < old(self).buddy_allocators@[j].end_addr)
                    &&& final(self).buddy_allocators@[i as int].lists() == old(self).buddy_allocators@[i as int].lists_after_dealloc(
                        addr,
                        size,
                        alignment,
                    )
                    &&& forall|j: int| 0 <= j < old(self).buddy_allocators@.len() && j != i ==> #[trigger] final(self).buddy_allocators@[j]
                        == old(self).buddy_allocators@[j]
                },
                None => final(self).buddy_allocators@ == old(self).buddy_allocators@ && forall|j: int|
                    0 <= j < old(self).buddy_allocators@.len() ==> !((#[trigger] old(self).buddy_allocators@[j]).start_addr
                        <= addr < old(self).buddy_allocators@[j].end_addr),
            },
    {
        let n = self.buddy_allocators.len();
        let mut i: usize = 0;
        while i < n
            invariant
                n == old(self).buddy_allocators@.len(),
                self.buddy_allocators@ == old(self).buddy_allocators@,
                old(self).wf(),
                size > 0 || alignment > 0,
                forall|j: int|
                    0 <= j < old(self).buddy_allocators@.len() && (#[trigger] old(self).buddy_allocators@[j]).start_addr
                        <= addr < old(self).buddy_allocators@[j].end_addr ==> addr < old(self).buddy_allocators@[j].start_addr
                        + old(self).buddy_allocators@[j].max_size_spec(),
                i <= n,
                forall|j: int| 0 <= j < i ==> !((#[trigger] old(self).buddy_allocators@[j]).start_addr <= addr
                    < old(self).buddy_allocators@[j].end_addr),
            decreases n - i,
        {
            if self.buddy_allocators[i].contains(addr) {
                let ghost before = self.buddy_allocators@;
                assert(before[i as int].wf());
                self.buddy_allocators[i].dealloc(addr, size, alignment);
                proof {
                    assert forall|j: int| 0 <= j < self.buddy_allocators@.len() implies (#[trigger] self.buddy_allocators@[j]).wf()
                        && self.buddy_allocators@[j].start_addr + self.buddy_allocators@[j].max_size_spec()
                        <= 0x10_0000_0000_0000 by {
                        if j != i {
                            assert(self.buddy_allocators@[j] == before[j]);
                        }
                    }
                }
                return Some(i);
            }
            i = i + 1;
        }
        None
    }
}

} // verus!
