//! The driver's side of a split virtqueue: its descriptor table with the
//! chain of free descriptors, its available ring, and how it takes entries
//! from the used ring.
use vstd::prelude::*;
use vstd::set_lib::{set_int_range, lemma_int_range, lemma_len_subset};
use crate::virtio::layout::{VirtqueueDescriptor, VirtqueueUsedElement, VIRTQ_DESC_F_WRITE};

verus! {

/// Port offset of the queue notification register.
pub const VIRTIO_IO_QUEUE_NOTIFY: u16 = 0x10;

/// A split virtqueue as the driver keeps it: the descriptor table and the
/// available ring it writes for the device, the head and length of the
/// chain of free descriptors, and how far it has read the used ring.
pub struct VirtQueue {
    /// Number of descriptors.
    pub size: u16,
    /// The descriptor table.
    pub desc: Vec<VirtqueueDescriptor>,
    /// Index of the available ring (the number of entries ever made available, modulo 2^16).
    pub avail_idx: u16,
    /// The available ring.
    pub avail_ring: Vec<u16>,
    /// First free descriptor.
    pub free_head: u16,
    /// Used ring index up to which the driver has read.
    pub last_used: u16,
    /// Number of free descriptors.
    pub num_free: u16,
    /// Guest-physical address of the queue memory.
    pub phys_addr: u64,
    /// Virtual address of the queue memory.
    pub virt_addr: u64,
    /// Index of the queue on its device.
    pub queue_index: u16,
    /// I/O base of the device.
    pub io_base: u16,
}

/// The descriptors reached by following `next` links `n` times from `head`.
pub open spec fn chain(desc: Seq<VirtqueueDescriptor>, head: u16, n: nat) -> Seq<u16>
    decreases n,
{
    if n == 0 {
        Seq::empty()
    } else {
        seq![head] + chain(desc, desc[head as int].next, (n - 1) as nat)
    }
}

/// A chain of `n` links has `n` descriptors.
pub proof fn lemma_chain_len(desc: Seq<VirtqueueDescriptor>, head: u16, n: nat)
    ensures
        chain(desc, head, n).len() == n,
    decreases n,
{
    if n > 0 {
        lemma_chain_len(desc, desc[head as int].next, (n - 1) as nat);
    }
}

/// Changing a descriptor that is not on a chain leaves the chain as it is.
proof fn lemma_chain_frame(desc: Seq<VirtqueueDescriptor>, head: u16, n: nat, j: int, d: VirtqueueDescriptor)
    requires
        0 <= j < desc.len(),
        !chain(desc, head, n).contains(j as u16),
        forall|k: int| 0 <= k < chain(desc, head, n).len() ==> (chain(desc, head, n)[k] as int) < desc.len(),
    ensures
        chain(desc.update(j, d), head, n) == chain(desc, head, n),
    decreases n,
{
    if n > 0 {
        let rest = chain(desc, desc[head as int].next, (n - 1) as nat);
        let c = chain(desc, head, n);
        assert(c == seq![head] + rest);
        assert(c[0] == head);
        assert(head as int != j) by {
            if head as int == j {
                assert(c.contains(j as u16));
            }
        }
        assert forall|k: int| 0 <= k < rest.len() implies (rest[k] as int) < desc.len() by {
            assert(rest[k] == c[k + 1]);
        }
        assert(!rest.contains(j as u16)) by {
            if rest.contains(j as u16) {
                let k = choose|k: int| 0 <= k < rest.len() && rest[k] == j as u16;
                assert(c[k + 1] == j as u16);
            }
        }
        lemma_chain_frame(desc, desc[head as int].next, (n - 1) as nat, j, d);
        assert(desc.update(j, d)[head as int] == desc[head as int]);
    }
}

/// At most `size` distinct values lie below `size`.
proof fn lemma_distinct_below(s: Seq<u16>, size: int)
    requires
        s.no_duplicates(),
        forall|k: int| 0 <= k < s.len() ==> (s[k] as int) < size,
        0 <= size,
    ensures
        s.len() <= size,
{
    let t = s.map_values(|x: u16| x as int);
    assert(t.no_duplicates()) by {
        assert forall|i: int, j: int| 0 <= i < t.len() && 0 <= j < t.len() && i != j implies t[i] != t[j] by {
            assert(s[i] != s[j]);
        }
    }
    t.unique_seq_to_set();
    lemma_int_range(0, size);
    assert(t.to_set().subset_of(set_int_range(0, size))) by {
        assert forall|x: int| t.to_set().contains(x) implies set_int_range(0, size).contains(x) by {
            let k = choose|k: int| 0 <= k < t.len() && t[k] == x;
            assert(t[k] == s[k] as int);
        }
    }
    lemma_len_subset(t.to_set(), set_int_range(0, size));
}

/// The free chain after taking its first descriptor.
pub open spec fn after_take(c: Seq<u16>) -> Seq<u16> {
    c.drop_first()
}

/// The free chain after giving back descriptor `i`.
pub open spec fn after_give_back(c: Seq<u16>, i: u16) -> Seq<u16> {
    seq![i] + c
}

/// Taking a descriptor and giving it back leaves the free chain as it was.
pub proof fn lemma_take_then_give_back(c: Seq<u16>)
    requires
        c.len() > 0,
    ensures
        after_give_back(after_take(c), c[0]) == c,
{
    assert(after_give_back(after_take(c), c[0]) =~= c);
}

impl VirtQueue {
    /// The chain of free descriptors.
    pub open spec fn free_chain(&self) -> Seq<u16> {
        chain(self.desc@, self.free_head, self.num_free as nat)
    }

    /// The descriptor table and the available ring have one slot per
    /// descriptor, and the free chain is made of distinct descriptors of the
    /// table.
    pub open spec fn wf(&self) -> bool {
        &&& self.desc@.len() == self.size
        &&& self.avail_ring@.len() == self.size
        &&& self.free_chain().no_duplicates()
        &&& forall|k: int| 0 <= k < self.free_chain().len() ==> #[trigger] self.free_chain()[k] < self.size
    }

    /// A queue with no descriptors.
    pub fn empty() -> (r: VirtQueue)
        ensures
            r.wf(),
            r.size == 0 && r.num_free == 0 && r.free_head == 0 && r.last_used == 0 && r.avail_idx == 0,
            r.phys_addr == 0 && r.virt_addr == 0 && r.queue_index == 0 && r.io_base == 0,
    {
        VirtQueue {
            size: 0,
            desc: Vec::new(),
            avail_idx: 0,
            avail_ring: Vec::new(),
            free_head: 0,
            last_used: 0,
            num_free: 0,
            phys_addr: 0,
            virt_addr: 0,
            queue_index: 0,
            io_base: 0,
        }
    }

    /// A queue of `size` descriptors in freshly zeroed memory at the given
    /// addresses, with all descriptors free.
    pub fn new(size: u16, phys_addr: u64, virt_addr: u64, queue_index: u16, io_base: u16) -> (r: VirtQueue)
        ensures
            r.wf(),
            r.size == size && r.num_free == size && r.free_head == 0,
            r.last_used == 0 && r.avail_idx == 0,
            r.phys_addr == phys_addr && r.virt_addr == virt_addr,
            r.queue_index == queue_index && r.io_base == io_base,
            r.free_chain() == Seq::new(size as nat, |i: int| i as u16),
    {
        let mut desc: Vec<VirtqueueDescriptor> = Vec::new();
        let mut avail_ring: Vec<u16> = Vec::new();
        let mut i: u16 = 0;
        while i < size
            invariant
                i <= size,
                desc@.len() == i,
                avail_ring@.len() == i,
            decreases size - i,
        {
            desc.push(VirtqueueDescriptor { addr: 0, len: 0, flags: 0, next: 0 });
            avail_ring.push(0);
            i = i + 1;
        }
        let mut q = VirtQueue {
            size,
            desc,
            avail_idx: 0,
            avail_ring,
            free_head: 0,
            last_used: 0,
            num_free: 0,
            phys_addr,
            virt_addr,
            queue_index,
            io_base,
        };
        q.init_free_list();
        q
    }

    /// Links all descriptors into one free chain `0, 1, ..., size - 1` and
    /// clears their flags.
    pub fn init_free_list(&mut self)
        requires
            old(self).desc@.len() == old(self).size,
            old(self).avail_ring@.len() == old(self).size,
        ensures
            final(self).wf(),
            final(self).num_free == old(self).size && final(self).free_head == 0,
            final(self).free_chain() == Seq::new(old(self).size as nat, |i: int| i as u16),
            final(self).size == old(self).size && final(self).avail_ring == old(self).avail_ring,
            final(self).avail_idx == old(self).avail_idx && final(self).last_used == old(self).last_used,
            final(self).phys_addr == old(self).phys_addr && final(self).virt_addr == old(self).virt_addr,
            final(self).queue_index == old(self).queue_index && final(self).io_base == old(self).io_base,
            forall|k: int| 0 <= k < final(self).desc@.len() ==> (#[trigger] final(self).desc@[k]).flags == 0
                && final(self).desc@[k].addr == old(self).desc@[k].addr
                && final(self).desc@[k].len == old(self).desc@[k].len,
    {
        self.num_free = self.size;
        self.free_head = 0;
        let size = self.size;
        let mut i: u16 = 0;
        while i < size
            invariant
                size == self.size,
                i <= size,
                self.desc@.len() == size,
                self.size == old(self).size && self.avail_ring == old(self).avail_ring,
                self.avail_idx == old(self).avail_idx && self.last_used == old(self).last_used,
                self.phys_addr == old(self).phys_addr && self.virt_addr == old(self).virt_addr,
                self.queue_index == old(self).queue_index && self.io_base == old(self).io_base,
                self.num_free == size && self.free_head == 0,
                forall|k: int| 0 <= k < i ==> (#[trigger] self.desc@[k]).next == (if k + 1 < size {
                    (k + 1) as u16
                } else {
                    0u16
                }),
                forall|k: int| 0 <= k < self.desc@.len() ==> (k < i ==> (#[trigger] self.desc@[k]).flags == 0)
                    && self.desc@[k].addr == old(self).desc@[k].addr
                    && self.desc@[k].len == old(self).desc@[k].len,
            decreases size - i,
        {
            let d = self.desc[i as usize];
            let next: u16 = if i + 1 < size { i + 1 } else { 0 };
            self.desc.set(i as usize, VirtqueueDescriptor { addr: d.addr, len: d.len, flags: 0, next });
            i = i + 1;
        }
        proof {
            lemma_chain_iota(self.desc@, size, 0);
        }
    }
}

impl VirtQueue {
    /// Takes the first free descriptor and fills it with a buffer of `len`
    /// bytes at `phys_addr`, written by the device if `device_writes`;
    /// returns its index. Refused when no descriptor is free.
    pub fn add_descriptor(&mut self, phys_addr: u64, len: u32, device_writes: bool) -> (r: Result<u16, &'static str>)
        requires
            old(self).wf(),
        ensures
            final(self).wf(),
            r is Err <==> old(self).num_free == 0,
            r is Err ==> *final(self) == *old(self) && r == Err::<u16, &'static str>("virtqueue full"),
            r matches Ok(i) ==> {
                &&& i == old(self).free_head
                &&& i == old(self).free_chain()[0]
                &&& final(self).free_chain() == after_take(old(self).free_chain())
                &&& final(self).num_free == old(self).num_free - 1
                &&& final(self).desc@ == old(self).desc@.update(
                    i as int,
                    VirtqueueDescriptor {
                        addr: phys_addr,
                        len,
                        flags: if device_writes { VIRTQ_DESC_F_WRITE } else { 0 },
                        next: 0,
                    },
                )
                &&& final(self).size == old(self).size && final(self).avail_ring == old(self).avail_ring
                &&& final(self).avail_idx == old(self).avail_idx && final(self).last_used == old(self).last_used
                &&& final(self).phys_addr == old(self).phys_addr && final(self).virt_addr == old(self).virt_addr
                &&& final(self).queue_index == old(self).queue_index && final(self).io_base == old(self).io_base
            },
    {
        if self.num_free == 0 {
            return Err("virtqueue full");
        }
        let ghost c = self.free_chain();
        let ghost d0 = self.desc@;
        let idx = self.free_head;
        proof {
            lemma_chain_len(d0, idx, self.num_free as nat);
            assert(c[0] == idx);
        }
        let d = self.desc[idx as usize];
        self.free_head = d.next;
        let flags: u16 = if device_writes { VIRTQ_DESC_F_WRITE } else { 0 };
        let nd = VirtqueueDescriptor { addr: phys_addr, len, flags, next: 0 };
        self.desc.set(idx as usize, nd);
        self.num_free = self.num_free - 1;
        proof {
            let rest = chain(d0, d.next, self.num_free as nat);
            assert(c == seq![idx] + rest);
            assert(rest =~= c.drop_first());
            assert(!rest.contains(idx)) by {
                if rest.contains(idx) {
                    let k = choose|k: int| 0 <= k < rest.len() && rest[k] == idx;
                    assert(c[k + 1] == c[0]);
                }
            }
            assert forall|k: int| 0 <= k < rest.len() implies (rest[k] as int) < d0.len() by {
                assert(rest[k] == c[k + 1]);
            }
            lemma_chain_frame(d0, d.next, self.num_free as nat, idx as int, nd);
            assert(self.free_chain() == rest);
            assert forall|k: int| 0 <= k < rest.len() implies #[trigger] rest[k] < self.size by {
                assert(rest[k] == c[k + 1]);
            }
        }
        Ok(idx)
    }

    /// Gives descriptor `desc_idx` back: it becomes the head of the free
    /// chain. The descriptor must be in the table and not already free.
    pub fn free_descriptor(&mut self, desc_idx: u16)
        requires
            old(self).wf(),
            desc_idx < old(self).size,
            !old(self).free_chain().contains(desc_idx),
        ensures
            final(self).wf(),
            final(self).free_head == desc_idx,
            final(self).num_free == old(self).num_free + 1,
            final(self).free_chain() == after_give_back(old(self).free_chain(), desc_idx),
            final(self).desc@ == old(self).desc@.update(
                desc_idx as int,
                VirtqueueDescriptor { next: old(self).free_head, ..old(self).desc@[desc_idx as int] },
            ),
            final(self).size == old(self).size && final(self).avail_ring == old(self).avail_ring,
            final(self).avail_idx == old(self).avail_idx && final(self).last_used == old(self).last_used,
            final(self).phys_addr == old(self).phys_addr && final(self).virt_addr == old(self).virt_addr,
            final(self).queue_index == old(self).queue_index && final(self).io_base == old(self).io_base,
    {
        let ghost c = self.free_chain();
        let ghost d0 = self.desc@;
        proof {
            lemma_chain_len(d0, self.free_head, self.num_free as nat);
            let s = c.push(desc_idx);
            assert(s.no_duplicates()) by {
                assert forall|i: int, j: int| 0 <= i < s.len() && 0 <= j < s.len() && i != j implies s[i] != s[j] by {
                    if i < c.len() && j < c.len() {
                        assert(s[i] == c[i] && s[j] == c[j]);
                    } else if i < c.len() {
                        assert(s[i] == c[i]);
                    } else if j < c.len() {
                        assert(s[j] == c[j]);
                    }
                }
            }
            assert forall|k: int| 0 <= k < s.len() implies (s[k] as int) < self.size as int by {
                if k < c.len() {
                    assert(s[k] == c[k]);
                }
            }
            lemma_distinct_below(s, self.size as int);
        }
        let d = self.desc[desc_idx as usize];
        let nd = VirtqueueDescriptor { addr: d.addr, len: d.len, flags: d.flags, next: self.free_head };
        self.desc.set(desc_idx as usize, nd);
        let old_head = self.free_head;
        self.free_head = desc_idx;
        self.num_free = self.num_free + 1;
        proof {
            assert forall|k: int| 0 <= k < c.len() implies (c[k] as int) < d0.len() by {
            }
            lemma_chain_frame(d0, old_head, (self.num_free - 1) as nat, desc_idx as int, nd);
            assert(self.desc@[desc_idx as int].next == old_head);
            assert(self.free_chain() == seq![desc_idx] + chain(self.desc@, old_head, (self.num_free - 1) as nat));
            let n = self.free_chain();
            assert(n =~= after_give_back(c, desc_idx));
            assert(n.no_duplicates()) by {
                assert forall|i: int, j: int| 0 <= i < n.len() && 0 <= j < n.len() && i != j implies n[i] != n[j] by {
                    if i > 0 && j > 0 {
                        assert(n[i] == c[i - 1] && n[j] == c[j - 1]);
                    } else if i > 0 {
                        assert(n[i] == c[i - 1]);
                    } else {
                        assert(n[j] == c[j - 1]);
                    }
                }
            }
            assert forall|k: int| 0 <= k < n.len() implies #[trigger] n[k] < self.size by {
                if k > 0 {
                    assert(n[k] == c[k - 1]);
                }
            }
        }
    }

    /// Makes descriptor `desc_index` available to the device: it goes into
    /// the ring slot of the current index, and the index moves on by one
    /// (wrapping).
    pub fn push_avail(&mut self, desc_index: u16)
        requires
            old(self).wf(),
            old(self).size > 0,
        ensures
            final(self).wf(),
            final(self).avail_ring@ == old(self).avail_ring@.update(
                (old(self).avail_idx % old(self).size) as int,
                desc_index,
            ),
            final(self).avail_idx == (old(self).avail_idx + 1) % 0x10000,
            final(self).size == old(self).size && final(self).desc == old(self).desc,
            final(self).free_head == old(self).free_head && final(self).num_free == old(self).num_free,
            final(self).last_used == old(self).last_used,
            final(self).phys_addr == old(self).phys_addr && final(self).virt_addr == old(self).virt_addr,
            final(self).queue_index == old(self).queue_index && final(self).io_base == old(self).io_base,
    {
        let slot = (self.avail_idx % self.size) as usize;
        self.avail_ring.set(slot, desc_index);
        self.avail_idx = self.avail_idx.wrapping_add(1);
    }

    /// The port and the value written to notify the device of this queue.
    pub fn kick(&self) -> (r: (u16, u16))
        requires
            self.io_base + VIRTIO_IO_QUEUE_NOTIFY <= u16::MAX,
        ensures
            r.0 == self.io_base + VIRTIO_IO_QUEUE_NOTIFY && r.1 == self.queue_index,
    {
        (self.io_base + VIRTIO_IO_QUEUE_NOTIFY, self.queue_index)
    }

    /// Takes the next entry of the used ring, given the ring's index and its
    /// elements as the device left them: `None` when the driver has read up
    /// to the index; else the descriptor id and length of the element at
    /// the read position, which moves on by one (wrapping).
    pub fn pop_used(&mut self, used_idx: u16, used_ring: &[VirtqueueUsedElement]) -> (r: Option<(u16, u32)>)
        requires
            old(self).last_used != used_idx ==> old(self).size > 0 && used_ring@.len() == old(self).size,
        ensures
            old(self).last_used == used_idx ==> r is None && *final(self) == *old(self),
            old(self).last_used != used_idx ==> {
                let e = used_ring@[(old(self).last_used % old(self).size) as int];
                &&& r == Some((e.id as u16, e.len))
                &&& final(self).last_used == (old(self).last_used + 1) % 0x10000
            },
            final(self).size == old(self).size && final(self).desc == old(self).desc,
            final(self).avail_ring == old(self).avail_ring && final(self).avail_idx == old(self).avail_idx,
            final(self).free_head == old(self).free_head && final(self).num_free == old(self).num_free,
            final(self).phys_addr == old(self).phys_addr && final(self).virt_addr == old(self).virt_addr,
            final(self).queue_index == old(self).queue_index && final(self).io_base == old(self).io_base,
    {
        if self.last_used == used_idx {
            return None;
        }
        let index = (self.last_used % self.size) as usize;
        let elem = &used_ring[index];
        self.last_used = self.last_used.wrapping_add(1);
        Some((elem.id as u16, elem.len))
    }
}

/// Following the links `k + 1` of a table linked as `0, 1, ..., size - 1`
/// from descriptor `k` visits `k, ..., size - 1`.
proof fn lemma_chain_iota(desc: Seq<VirtqueueDescriptor>, size: u16, k: int)
    requires
        0 <= k <= size,
        desc.len() == size,
        forall|j: int| 0 <= j < size ==> (#[trigger] desc[j]).next == (if j + 1 < size { (j + 1) as u16 } else { 0u16 }),
    ensures
        chain(desc, k as u16, (size - k) as nat) == Seq::new((size - k) as nat, |i: int| (i + k) as u16),
    decreases size - k,
{
    if k < size {
        lemma_chain_iota(desc, size, k + 1);
        let n = (size - k) as nat;
        let next = desc[k].next;
        assert((k as u16) as int == k);
        let tail = chain(desc, next, (n - 1) as nat);
        assert(chain(desc, k as u16, n) == seq![k as u16] + tail);
        if k + 1 < size {
            assert(next == (k + 1) as u16);
            assert(tail == Seq::new((size - (k + 1)) as nat, |i: int| (i + (k + 1)) as u16));
        } else {
            assert(tail =~= Seq::<u16>::empty());
        }
        assert(seq![k as u16] + tail =~= Seq::new(n, |i: int| (i + k) as u16));
    } else {
        assert(chain(desc, k as u16, 0) =~= Seq::new(0, |i: int| (i + k) as u16));
    }
}

} // verus!
