//! The initial stack of a user process: where its argument and environment
//! strings, the pointer arrays to them and the argument count are written.
use vstd::prelude::*;

verus! {

/// The address just above a user process's stack.
pub const USER_STACK_TOP: u64 = 0x0000_7FFF_0000_0000;
/// Number of 4 KiB pages of a user stack.
pub const USER_STACK_PAGES: u64 = 8;
/// Size in bytes of a user stack.
pub const USER_STACK_SIZE: u64 = 4096 * USER_STACK_PAGES;

/// Bytes written to the stack at an address.
#[derive(Debug)]
pub struct StackWrite {
    pub addr: u64,
    pub bytes: Vec<u8>,
}

/// The writes that set up a user stack, in the order they are made, and the
/// stack pointer the process starts with.
#[derive(Debug)]
pub struct UserStack {
    pub sp: u64,
    pub writes: Vec<StackWrite>,
}

/// Bytes the strings from index `i` on take on the stack, each with its
/// terminating zero.
pub open spec fn strings_size(strs: Seq<Seq<u8>>, i: int) -> int
    decreases strs.len() - i,
{
    if i < 0 || i >= strs.len() {
        0
    } else {
        strs[i].len() + 1 + strings_size(strs, i + 1)
    }
}

/// The eight little-endian bytes of `v`.
pub open spec fn le64(v: u64) -> Seq<u8> {
    Seq::new(8, |i: int| ((v >> (8 * i) as u64) & 0xff) as u8)
}

/// Where string `i` of `strs` lands when the strings are pushed, the last
/// one first, below `sp`.
pub open spec fn string_addr(sp: int, strs: Seq<Seq<u8>>, i: int) -> int {
    sp - strings_size(strs, i)
}

/// The stack pointer once the environment strings, then the argument
/// strings, are pushed below `top`, and it is rounded down to 16 bytes.
pub open spec fn aligned_sp(args: Seq<Seq<u8>>, envs: Seq<Seq<u8>>, top: int) -> int {
    let sp = top - strings_size(envs, 0) - strings_size(args, 0);
    sp - sp % 16
}

/// The stack pointer the process starts with: below the aligned pointer
/// lie the environment's null pointer and pointers, the arguments' null
/// pointer and pointers, and the argument count.
pub open spec fn final_sp(args: Seq<Seq<u8>>, envs: Seq<Seq<u8>>, top: int) -> int {
    aligned_sp(args, envs, top) - 8 * (envs.len() + args.len() + 3)
}

/// The writes that set up the stack, in order: the environment strings, the
/// last one first; the argument strings, the last one first; a null
/// pointer; a pointer to each environment string, the first one first; a
/// null pointer; a pointer to each argument string, the first one first;
/// the argument count. Each write goes just below the one before it, so the
/// pointer arrays list the strings from the last to the first.
pub open spec fn stack_writes(args: Seq<Seq<u8>>, envs: Seq<Seq<u8>>, top: int) -> Seq<(int, Seq<u8>)> {
    let ne = envs.len() as int;
    let na = args.len() as int;
    let sp1 = top - strings_size(envs, 0);
    let a = aligned_sp(args, envs, top);
    Seq::new(ne as nat, |k: int| (string_addr(top, envs, ne - 1 - k), envs[ne - 1 - k].push(0u8)))
        + Seq::new(na as nat, |k: int| (string_addr(sp1, args, na - 1 - k), args[na - 1 - k].push(0u8)))
        + seq![(a - 8, le64(0))]
        + Seq::new(ne as nat, |k: int| (a - 8 - 8 * (k + 1), le64(string_addr(top, envs, k) as u64)))
        + seq![(a - 16 - 8 * ne, le64(0))]
        + Seq::new(na as nat, |k: int| (a - 16 - 8 * ne - 8 * (k + 1), le64(string_addr(sp1, args, k) as u64)))
        + seq![(final_sp(args, envs, top), le64(na as u64))]
}

/// The writes as addresses and byte sequences.
pub open spec fn writes_view(w: Seq<StackWrite>) -> Seq<(int, Seq<u8>)> {
    w.map_values(|x: StackWrite| (x.addr as int, x.bytes@))
}

proof fn lemma_strings_size_bounds(strs: Seq<Seq<u8>>, i: int)
    requires
        0 <= i <= strs.len(),
    ensures
        0 <= strings_size(strs, i) <= strings_size(strs, 0),
    decreases i,
{
    lemma_strings_size_nonneg(strs, i);
    if i > 0 {
        lemma_strings_size_bounds(strs, i - 1);
    }
}

proof fn lemma_strings_size_nonneg(strs: Seq<Seq<u8>>, i: int)
    ensures
        0 <= strings_size(strs, i),
    decreases strs.len() - i,
{
    if 0 <= i < strs.len() {
        lemma_strings_size_nonneg(strs, i + 1);
    }
}

/// The eight little-endian bytes of `v`.
fn le_bytes(v: u64) -> (r: Vec<u8>)
    ensures
        r@ == le64(v),
{
    let mut out: Vec<u8> = Vec::new();
    let mut i: u64 = 0;
    while i < 8
        invariant
            i <= 8,
            out@ == le64(v).take(i as int),
        decreases 8 - i,
    {
        out.push(((v >> (8 * i)) & 0xff) as u8);
        i = i + 1;
        assert(out@ =~= le64(v).take(i as int));
    }
    assert(le64(v).take(8) =~= le64(v));
    out
}

/// A copy of `s` with a zero byte after it.
fn terminated(s: &Vec<u8>) -> (r: Vec<u8>)
    ensures
        r@ == s@.push(0u8),
{
    let mut out: Vec<u8> = Vec::new();
    let mut i: usize = 0;
    while i < s.len()
        invariant
            i <= s@.len(),
            out@ == s@.take(i as int),
        decreases s@.len() - i,
    {
        out.push(s[i]);
        i = i + 1;
        assert(out@ =~= s@.take(i as int));
    }
    out.push(0);
    assert(out@ =~= s@.push(0u8));
    out
}

/// The byte strings held in a vector of byte vectors.
pub open spec fn byte_strings(v: Seq<Vec<u8>>) -> Seq<Seq<u8>> {
    v.map_values(|x: Vec<u8>| x@)
}

fn push_write(ws: &mut Vec<StackWrite>, addr: u64, bytes: Vec<u8>)
    ensures
        writes_view(final(ws)@) == writes_view(old(ws)@).push((addr as int, bytes@)),
{
    let ghost b = bytes@;
    ws.push(StackWrite { addr, bytes });
    assert(writes_view(ws@) =~= writes_view(old(ws)@).push((addr as int, b)));
}

proof fn lemma_align16(x: u64)
    by (bit_vector)
    ensures
        x & !0xFu64 == x - x % 16,
{
}

/// Lays out the initial stack of a user process below `top`: the writes to
/// make, in order, and the stack pointer the process starts with, as
/// `stack_writes` and `final_sp` state. Every write must land in the
/// stack's mapped pages.
pub fn setup_user_stack(args: &Vec<Vec<u8>>, envs: &Vec<Vec<u8>>, top: u64) -> (r: UserStack)
    requires
        top >= USER_STACK_SIZE,
        final_sp(byte_strings(args@), byte_strings(envs@), top as int) >= top - USER_STACK_SIZE,
    ensures
        r.sp == final_sp(byte_strings(args@), byte_strings(envs@), top as int),
        writes_view(r.writes@) == stack_writes(byte_strings(args@), byte_strings(envs@), top as int),
{
    let ghost a_s = byte_strings(args@);
    let ghost e_s = byte_strings(envs@);
    let ghost lo: int = top - USER_STACK_SIZE;
    let ne = envs.len();
    let na = args.len();
    proof {
        lemma_strings_size_bounds(e_s, 0);
        lemma_strings_size_bounds(a_s, 0);
        assert(e_s.len() == ne && a_s.len() == na);
    }
    let mut writes: Vec<StackWrite> = Vec::new();
    let mut env_ptrs: Vec<u64> = Vec::new();
    let mut arg_ptrs: Vec<u64> = Vec::new();
    let mut sp: u64 = top;
    // The environment strings, the last one first.
    let mut i: usize = ne;
    while i > 0
        invariant
            e_s == byte_strings(envs@),
            a_s == byte_strings(args@),
            ne == envs@.len(),
            i <= ne,
            lo == top - USER_STACK_SIZE,
            top >= USER_STACK_SIZE,
            final_sp(a_s, e_s, top as int) >= lo,
            sp == top - strings_size(e_s, i as int),
            writes_view(writes@) == Seq::new((ne - i) as nat, |k: int| (string_addr(top as int, e_s, ne - 1 - k), e_s[ne - 1 - k].push(0u8))),
            env_ptrs@ == Seq::new((ne - i) as nat, |k: int| string_addr(top as int, e_s, ne - 1 - k) as u64),
        decreases i,
    {
        let idx = i - 1;
        proof {
            lemma_strings_size_bounds(e_s, idx as int);
            lemma_strings_size_bounds(a_s, 0);
            assert(e_s[idx as int] == envs@[idx as int]@);
        }
        let bytes = terminated(&envs[idx]);
        sp = sp - bytes.len() as u64;
        push_write(&mut writes, sp, bytes);
        env_ptrs.push(sp);
        i = idx;
        assert(writes_view(writes@) =~= Seq::new((ne - i) as nat, |k: int| (string_addr(top as int, e_s, ne - 1 - k), e_s[ne - 1 - k].push(0u8))));
        assert(env_ptrs@ =~= Seq::new((ne - i) as nat, |k: int| string_addr(top as int, e_s, ne - 1 - k) as u64));
    }
    let sp1 = sp;
    let ghost w1 = writes_view(writes@);
    // The argument strings, the last one first.
    let mut j: usize = na;
    while j > 0
        invariant
            e_s == byte_strings(envs@),
            a_s == byte_strings(args@),
            na == args@.len(),
            j <= na,
            lo == top - USER_STACK_SIZE,
            top >= USER_STACK_SIZE,
            final_sp(a_s, e_s, top as int) >= lo,
            sp1 == top - strings_size(e_s, 0),
            sp == sp1 - strings_size(a_s, j as int),
            writes_view(writes@) == w1 + Seq::new((na - j) as nat, |k: int| (string_addr(sp1 as int, a_s, na - 1 - k), a_s[na - 1 - k].push(0u8))),
            arg_ptrs@ == Seq::new((na - j) as nat, |k: int| string_addr(sp1 as int, a_s, na - 1 - k) as u64),
        decreases j,
    {
        let idx = j - 1;
        proof {
            lemma_strings_size_bounds(a_s, idx as int);
            lemma_strings_size_bounds(e_s, 0);
            assert(a_s[idx as int] == args@[idx as int]@);
        }
        let bytes = terminated(&args[idx]);
        sp = sp - bytes.len() as u64;
        push_write(&mut writes, sp, bytes);
        arg_ptrs.push(sp);
        j = idx;
        assert(writes_view(writes@) =~= w1 + Seq::new((na - j) as nat, |k: int| (string_addr(sp1 as int, a_s, na - 1 - k), a_s[na - 1 - k].push(0u8))));
        assert(arg_ptrs@ =~= Seq::new((na - j) as nat, |k: int| string_addr(sp1 as int, a_s, na - 1 - k) as u64));
    }
    proof {
        lemma_align16(sp);
    }
    let a = sp & !0xF;
    assert(a == aligned_sp(a_s, e_s, top as int));
    let ghost w2 = writes_view(writes@);
    push_write(&mut writes, a - 8, le_bytes(0));
    let ghost w3 = writes_view(writes@);
    // The environment pointers, the first string's first.
    let mut k: usize = 0;
    while k < ne
        invariant
            e_s == byte_strings(envs@),
            ne == envs@.len(),
            k <= ne,
            a == aligned_sp(a_s, e_s, top as int),
            final_sp(a_s, e_s, top as int) >= lo,
            lo >= 0,
            env_ptrs@ == Seq::new(ne as nat, |q: int| string_addr(top as int, e_s, ne - 1 - q) as u64),
            writes_view(writes@) == w3 + Seq::new(k as nat, |q: int| (a - 8 - 8 * (q + 1), le64(string_addr(top as int, e_s, q) as u64))),
        decreases ne - k,
    {
        let p = env_ptrs[ne - 1 - k];
        push_write(&mut writes, a - 8 - 8 * (k as u64 + 1), le_bytes(p));
        k = k + 1;
        assert(writes_view(writes@) =~= w3 + Seq::new(k as nat, |q: int| (a - 8 - 8 * (q + 1), le64(string_addr(top as int, e_s, q) as u64))));
    }
    push_write(&mut writes, a - 16 - 8 * (ne as u64), le_bytes(0));
    let ghost w4 = writes_view(writes@);
    // The argument pointers, the first string's first.
    let mut m: usize = 0;
    while m < na
        invariant
            a_s == byte_strings(args@),
            e_s == byte_strings(envs@),
            na == args@.len(),
            ne == envs@.len(),
            m <= na,
            a == aligned_sp(a_s, e_s, top as int),
            final_sp(a_s, e_s, top as int) >= lo,
            lo >= 0,
            arg_ptrs@ == Seq::new(na as nat, |q: int| string_addr(sp1 as int, a_s, na - 1 - q) as u64),
            writes_view(writes@) == w4 + Seq::new(m as nat, |q: int| (a - 16 - 8 * ne - 8 * (q + 1), le64(string_addr(sp1 as int, a_s, q) as u64))),
        decreases na - m,
    {
        let p = arg_ptrs[na - 1 - m];
        push_write(&mut writes, a - 16 - 8 * (ne as u64) - 8 * (m as u64 + 1), le_bytes(p));
        m = m + 1;
        assert(writes_view(writes@) =~= w4 + Seq::new(m as nat, |q: int| (a - 16 - 8 * ne - 8 * (q + 1), le64(string_addr(sp1 as int, a_s, q) as u64))));
    }
    let final_ptr = a - 8 * (ne as u64 + na as u64 + 3);
    push_write(&mut writes, final_ptr, le_bytes(na as u64));
    assert(writes_view(writes@) =~= stack_writes(a_s, e_s, top as int));
    UserStack { sp: final_ptr, writes }
}

} // verus!
