//! The guest kernel's three-level page table, kept in physical memory: each table is one
//! 4 KiB page of 512 eight-byte entries, and a new table is a zeroed page taken from the page
//! allocator.
use vstd::prelude::*;
use crate::kernel::allocator::{lemma_take_page_free, taken, AllocView, PageAllocator, PAGE_SIZE};
use crate::memory::{dram_off, le64, lemma_mem_write_read, mem_read64, mem_write, mem_zero, Memory, DRAM_BASE, DRAM_SIZE};

verus! {

pub const PAGE_ENTRIES: usize = 512;
pub const PTE_FLAGS_MASK: u64 = 0x3FF;
/// The physical page number field of an entry, bits 53..10.
pub const PTE_PPN_MASK: u64 = 0x003F_FFFF_FFFF_FC00;

pub const PTE_V: u64 = 1;
pub const PTE_R: u64 = 2;
pub const PTE_W: u64 = 4;
pub const PTE_X: u64 = 8;
/// The accessed and dirty bits, set in every leaf entry.
pub const PTE_A: u64 = 64;
pub const PTE_D: u64 = 128;

pub const READ_WRITE: u64 = PTE_R | PTE_W;
pub const READ_EXECUTE: u64 = PTE_R | PTE_X;
pub const READ_WRITE_EXECUTE: u64 = PTE_R | PTE_W | PTE_X;

/// Index of `vaddr` in the root table.
pub open spec fn vpn2(vaddr: usize) -> usize {
    ((vaddr / 0x4000_0000) % 512) as usize
}

/// Index of `vaddr` in the middle table.
pub open spec fn vpn1(vaddr: usize) -> usize {
    ((vaddr / 0x20_0000) % 512) as usize
}

/// Index of `vaddr` in the last table.
pub open spec fn vpn0(vaddr: usize) -> usize {
    ((vaddr / 0x1000) % 512) as usize
}

/// The page at `t` lies in DRAM.
pub open spec fn table_in_dram(t: usize) -> bool {
    DRAM_BASE <= t && t + PAGE_SIZE <= DRAM_BASE + DRAM_SIZE
}

/// The physical address of entry `i` of the table at `t`.
pub open spec fn entry_addr(t: usize, i: usize) -> u64 {
    (t + i * 8) as u64
}

/// Entry `i` of the table at `t`.
pub open spec fn pte(m: Seq<u8>, t: usize, i: usize) -> u64 {
    match mem_read64(m, entry_addr(t, i)) {
        Some(e) => e,
        None => 0,
    }
}

pub open spec fn is_valid(e: u64) -> bool {
    e & PTE_V != 0
}

/// The table (or, in a leaf, the page) that entry `e` points to.
pub open spec fn next_table(e: u64) -> usize {
    (((e & PTE_PPN_MASK) >> 10u64) << 12u64) as usize
}

/// The page number field of an entry that points at physical address `pa`.
pub open spec fn ppn_field(pa: u64) -> u64 {
    (pa >> 12u64) << 10u64
}

/// The entry of a directory that points at the table at `t`.
pub open spec fn table_pte(t: usize) -> u64 {
    ppn_field(t as u64) | PTE_V
}

/// The leaf entry that maps a page to `paddr` with `flags`.
pub open spec fn leaf_pte(paddr: usize, flags: u64) -> u64 {
    ppn_field(paddr as u64) | flags | PTE_V | PTE_A | PTE_D
}

/// A new table: a page taken from the allocator and zeroed; memory and allocator unchanged
/// when no page is free.
pub open spec fn alloc_table(m: Seq<u8>, a: AllocView) -> (Seq<u8>, AllocView, Option<usize>) {
    match a.take_page() {
        None => (m, a, None),
        Some((a1, p)) => (mem_zero(m, p as u64, PAGE_SIZE as nat), a1, Some(p)),
    }
}

/// One step of the walk that builds missing tables: from entry `i` of table `t` to the table
/// it points to, or, where the entry is not valid, to a new table that it is set to point to.
/// `None` when no page was free for a new table.
pub open spec fn descend(m: Seq<u8>, a: AllocView, t: usize, i: usize) -> (Seq<u8>, AllocView, Option<usize>) {
    let e = pte(m, t, i);
    if is_valid(e) {
        (m, a, Some(next_table(e)))
    } else {
        match alloc_table(m, a) {
            (m1, a1, Some(p)) => (mem_write(m1, entry_addr(t, i), table_pte(p), 8), a1, Some(p)),
            (m1, a1, None) => (m1, a1, None),
        }
    }
}

/// The walk that builds missing tables, from the root to the last table for `vaddr`.
pub open spec fn create_walk(m: Seq<u8>, a: AllocView, root: usize, vaddr: usize) -> (Seq<u8>, AllocView, Option<usize>) {
    let (m1, a1, o1) = descend(m, a, root, vpn2(vaddr));
    match o1 {
        None => (m1, a1, None),
        Some(t2) => descend(m1, a1, t2, vpn1(vaddr)),
    }
}

/// The middle and last tables that the building walk for `vaddr` reaches.
pub open spec fn create_path(m: Seq<u8>, a: AllocView, root: usize, vaddr: usize) -> Option<(usize, usize)> {
    let (m1, a1, o1) = descend(m, a, root, vpn2(vaddr));
    match o1 {
        None => None,
        Some(t2) => match descend(m1, a1, t2, vpn1(vaddr)).2 {
            None => None,
            Some(t3) => Some((t2, t3)),
        },
    }
}

/// Every table that the building walk for `vaddr` reads or writes lies in DRAM.
pub open spec fn create_ok(m: Seq<u8>, a: AllocView, root: usize, vaddr: usize) -> bool {
    &&& table_in_dram(root)
    &&& match descend(m, a, root, vpn2(vaddr)) {
        (m1, a1, Some(t2)) => table_in_dram(t2) && match descend(m1, a1, t2, vpn1(vaddr)).2 {
            Some(t3) => table_in_dram(t3),
            None => true,
        },
        _ => true,
    }
}

/// The middle table for `vaddr`, if the root entry is valid.
pub open spec fn find_l2(m: Seq<u8>, root: usize, vaddr: usize) -> Option<usize> {
    let e = pte(m, root, vpn2(vaddr));
    if is_valid(e) { Some(next_table(e)) } else { None }
}

/// The last table for `vaddr`, if the entries leading to it are valid.
pub open spec fn find_table(m: Seq<u8>, root: usize, vaddr: usize) -> Option<usize> {
    match find_l2(m, root, vaddr) {
        None => None,
        Some(t2) => {
            let e = pte(m, t2, vpn1(vaddr));
            if is_valid(e) { Some(next_table(e)) } else { None }
        },
    }
}

/// Every table that the lookup of `vaddr` reads lies in DRAM.
pub open spec fn find_ok(m: Seq<u8>, root: usize, vaddr: usize) -> bool {
    &&& table_in_dram(root)
    &&& find_l2(m, root, vaddr) matches Some(t2) ==> table_in_dram(t2)
    &&& find_table(m, root, vaddr) matches Some(t3) ==> table_in_dram(t3)
}

/// The physical address that `vaddr` maps to: the leaf entry's page with the page offset of
/// `vaddr`; `None` where an entry on the way is not valid.
pub open spec fn translate_spec(m: Seq<u8>, root: usize, vaddr: usize) -> Option<usize> {
    match find_table(m, root, vaddr) {
        None => None,
        Some(t) => {
            let e = pte(m, t, vpn0(vaddr));
            if is_valid(e) { Some(next_table(e) | (vaddr & 0xFFF)) } else { None }
        },
    }
}

/// Memory, allocator and success of mapping `vaddr` to `paddr`: the building walk, then the
/// leaf entry written; the walk's changes stay when it fails.
pub open spec fn map_spec(m: Seq<u8>, a: AllocView, root: usize, vaddr: usize, paddr: usize, flags: u64) -> (Seq<u8>, AllocView, bool) {
    match create_walk(m, a, root, vaddr) {
        (m1, a1, Some(t)) => (mem_write(m1, entry_addr(t, vpn0(vaddr)), leaf_pte(paddr, flags), 8), a1, true),
        (m1, a1, None) => (m1, a1, false),
    }
}

/// Memory after unmapping `vaddr`: its leaf entry cleared, where the tables leading to it
/// exist.
pub open spec fn unmap_spec(m: Seq<u8>, root: usize, vaddr: usize) -> Seq<u8> {
    match find_table(m, root, vaddr) {
        Some(t) => mem_write(m, entry_addr(t, vpn0(vaddr)), 0, 8),
        None => m,
    }
}

/// Bits of the entries: a table address or a page-aligned page address with flags below the
/// address bits reads back from its entry, which is valid; a zeroed entry is not valid.
proof fn lemma_entry_bits(t: usize, p: usize, f: u64, v: usize)
    by (bit_vector)
    ensures
        t % 4096 == 0 && t < 0x100_0000_0000_0000 ==> is_valid(table_pte(t)) && next_table(table_pte(t)) == t,
        p % 4096 == 0 && p < 0x100_0000_0000_0000 && f < 1024 ==> is_valid(leaf_pte(p, f)) && next_table(
            leaf_pte(p, f),
        ) == p && (p | (v & 0xFFF)) == p + v % 4096,
        le64(0, 0, 0, 0, 0, 0, 0, 0) == 0,
        !is_valid(0),
{
}

/// Two distinct page-aligned addresses are a page apart.
proof fn lemma_pages_apart(t: usize, u: usize)
    requires
        t % 4096 == 0,
        u % 4096 == 0,
        t != u,
    ensures
        t + 4096 <= u || u + 4096 <= t,
{
    vstd::arithmetic::div_mod::lemma_fundamental_div_mod(t as int, 4096);
    vstd::arithmetic::div_mod::lemma_fundamental_div_mod(u as int, 4096);
}

/// An entry written reads back.
proof fn lemma_pte_write_same(m: Seq<u8>, t: usize, i: usize, v: u64)
    requires
        m.len() == DRAM_SIZE,
        table_in_dram(t),
        i < PAGE_ENTRIES,
    ensures
        pte(mem_write(m, entry_addr(t, i), v, 8), t, i) == v,
        mem_write(m, entry_addr(t, i), v, 8).len() == m.len(),
{
    lemma_mem_write_read(m, entry_addr(t, i), v);
}

/// Writing an entry of one page leaves the entries of another page alone.
proof fn lemma_pte_write_other(m: Seq<u8>, t: usize, i: usize, v: u64, u: usize, j: usize)
    requires
        m.len() == DRAM_SIZE,
        table_in_dram(t),
        table_in_dram(u),
        i < PAGE_ENTRIES,
        j < PAGE_ENTRIES,
        t + 4096 <= u || u + 4096 <= t,
    ensures
        pte(mem_write(m, entry_addr(t, i), v, 8), u, j) == pte(m, u, j),
        mem_write(m, entry_addr(t, i), v, 8).len() == m.len(),
{
    lemma_mem_write_read(m, entry_addr(t, i), v);
    let m2 = mem_write(m, entry_addr(t, i), v, 8);
    let b = dram_off(entry_addr(u, j));
    assert(m2[b] == m[b] && m2[b + 1] == m[b + 1] && m2[b + 2] == m[b + 2] && m2[b + 3] == m[b + 3]);
    assert(m2[b + 4] == m[b + 4] && m2[b + 5] == m[b + 5] && m2[b + 6] == m[b + 6] && m2[b + 7] == m[b + 7]);
}

/// Zeroing a page clears its entries and leaves the entries of another page alone.
proof fn lemma_pte_zero(m: Seq<u8>, p: usize, u: usize, j: usize)
    requires
        m.len() == DRAM_SIZE,
        table_in_dram(p),
        table_in_dram(u),
        j < PAGE_ENTRIES,
    ensures
        pte(mem_zero(m, p as u64, PAGE_SIZE as nat), p, j) == 0,
        mem_zero(m, p as u64, PAGE_SIZE as nat).len() == m.len(),
        p + 4096 <= u || u + 4096 <= p ==> pte(mem_zero(m, p as u64, PAGE_SIZE as nat), u, j) == pte(m, u, j),
{
    lemma_entry_bits(0, 0, 0, 0);
}

/// A new table maps nothing: every lookup in it stops at its zeroed root.
pub proof fn lemma_new_table_maps_nothing(m: Seq<u8>, a: AllocView, vaddr: usize)
    requires
        m.len() == DRAM_SIZE,
        alloc_table(m, a).2 matches Some(root) && table_in_dram(root),
    ensures
        find_ok(alloc_table(m, a).0, alloc_table(m, a).2.unwrap(), vaddr),
        translate_spec(alloc_table(m, a).0, alloc_table(m, a).2.unwrap(), vaddr) is None,
{
    let root = alloc_table(m, a).2.unwrap();
    lemma_pte_zero(m, root, root, vpn2(vaddr));
    lemma_entry_bits(0, 0, 0, 0);
}

/// After a successful `map` of `vaddr` to a page-aligned `paddr` (below 2^56) with flags
/// below the address bits, `translate` of any address `v` in the page of `vaddr` gives `paddr`
/// plus the offset of `v` in its page, where the root, middle and last tables on the way are
/// distinct pages.
pub proof fn lemma_map_then_translate(
    m: Seq<u8>,
    a: AllocView,
    root: usize,
    vaddr: usize,
    paddr: usize,
    flags: u64,
    v: usize,
)
    requires
        m.len() == DRAM_SIZE,
        create_ok(m, a, root, vaddr),
        map_spec(m, a, root, vaddr, paddr, flags).2,
        paddr % 4096 == 0,
        paddr < 0x100_0000_0000_0000,
        flags < 1024,
        root % 4096 == 0,
        create_path(m, a, root, vaddr) matches Some((t2, t3)) && t2 % 4096 == 0 && t3 % 4096 == 0 && root != t2
            && root != t3 && t2 != t3,
        v / 4096 == vaddr / 4096,
    ensures
        find_ok(map_spec(m, a, root, vaddr, paddr, flags).0, root, v),
        translate_spec(map_spec(m, a, root, vaddr, paddr, flags).0, root, v) == Some((paddr + v % 4096) as usize),
        map_spec(m, a, root, vaddr, paddr, flags).0.len() == m.len(),
        create_path(m, a, root, vaddr) matches Some((t2, t3)) && find_l2(map_spec(m, a, root, vaddr, paddr, flags).0, root, v)
            == Some(t2) && find_table(map_spec(m, a, root, vaddr, paddr, flags).0, root, v) == Some(t3),
{
    lemma_same_page_same_indices(v, vaddr);
    let (t2, t3) = create_path(m, a, root, vaddr).unwrap();
    let (i2, i1, i0) = (vpn2(vaddr), vpn1(vaddr), vpn0(vaddr));
    lemma_pages_apart(root, t2);
    lemma_pages_apart(root, t3);
    lemma_pages_apart(t2, t3);
    lemma_entry_bits(t2, paddr, flags, v);
    lemma_entry_bits(t3, paddr, flags, v);
    let (m1, a1, o1) = descend(m, a, root, i2);
    // The root entry points to t2 after the first step.
    if !is_valid(pte(m, root, i2)) {
        let mz = alloc_table(m, a).0;
        lemma_pte_zero(m, t2, root, i2);
        lemma_pte_write_same(mz, root, i2, table_pte(t2));
    }
    assert(is_valid(pte(m1, root, i2)) && next_table(pte(m1, root, i2)) == t2);
    let (m2, a2, o2) = descend(m1, a1, t2, i1);
    if !is_valid(pte(m1, t2, i1)) {
        let mz = alloc_table(m1, a1).0;
        lemma_pte_zero(m1, t3, root, i2);
        lemma_pte_zero(m1, t3, t2, i1);
        lemma_pte_write_same(mz, t2, i1, table_pte(t3));
        lemma_pte_write_other(mz, t2, i1, table_pte(t3), root, i2);
    }
    assert(is_valid(pte(m2, root, i2)) && next_table(pte(m2, root, i2)) == t2);
    assert(is_valid(pte(m2, t2, i1)) && next_table(pte(m2, t2, i1)) == t3);
    let mf = mem_write(m2, entry_addr(t3, i0), leaf_pte(paddr, flags), 8);
    lemma_pte_write_other(m2, t3, i0, leaf_pte(paddr, flags), root, i2);
    lemma_pte_write_other(m2, t3, i0, leaf_pte(paddr, flags), t2, i1);
    lemma_pte_write_same(m2, t3, i0, leaf_pte(paddr, flags));
    assert(find_table(mf, root, vaddr) == Some(t3));
}

/// Two addresses in one page have the same table indices.
proof fn lemma_same_page_same_indices(v: usize, w: usize)
    requires
        v / 4096 == w / 4096,
    ensures
        vpn2(v) == vpn2(w),
        vpn1(v) == vpn1(w),
        vpn0(v) == vpn0(w),
{
    vstd::arithmetic::div_mod::lemma_div_denominator(v as int, 4096, 512);
    vstd::arithmetic::div_mod::lemma_div_denominator(w as int, 4096, 512);
    vstd::arithmetic::div_mod::lemma_div_denominator(v as int, 4096, 0x40000);
    vstd::arithmetic::div_mod::lemma_div_denominator(w as int, 4096, 0x40000);
}

/// An allocator whose heap holds whole pages of DRAM.
pub open spec fn heap_in_dram(a: AllocView) -> bool {
    &&& a.base % 4096 == 0
    &&& DRAM_BASE <= a.base
    &&& a.base + a.pages * 4096 <= DRAM_BASE + DRAM_SIZE
    &&& a.words.len() == (a.pages + 63) / 64
}

/// A page of such a heap is a page-aligned page of DRAM.
proof fn lemma_heap_page(a: AllocView, i: int)
    requires
        heap_in_dram(a),
        0 <= i < a.pages,
    ensures
        table_in_dram(a.addr_of(i) as usize),
        (a.addr_of(i) as usize) % 4096 == 0,
        a.addr_of(i) as usize == a.addr_of(i),
{
    assert(i * 4096 + 4096 <= a.pages * 4096) by (nonlinear_arith)
        requires
            i < a.pages,
    ;
    vstd::arithmetic::div_mod::lemma_mod_multiples_vanish(i, a.base as int, 4096);
}

/// The table a fresh allocation gives, and the allocator after it, as `lemma_take_page_free`
/// describes them, with the page's place in DRAM.
proof fn lemma_alloc_table_page(m: Seq<u8>, a: AllocView) -> (i: int)
    requires
        heap_in_dram(a),
        alloc_table(m, a).2 is Some,
    ensures
        0 <= i < a.pages,
        !taken(a.words, i),
        alloc_table(m, a).2->0 == a.addr_of(i),
        table_in_dram(alloc_table(m, a).2->0),
        alloc_table(m, a).2->0 % 4096 == 0,
        taken(alloc_table(m, a).1.words, i),
        heap_in_dram(alloc_table(m, a).1),
        alloc_table(m, a).1.base == a.base,
        forall|j: int| 0 <= j < a.words.len() * 64 && j != i ==> taken(alloc_table(m, a).1.words, j) == #[trigger] taken(a.words, j),
{
    lemma_take_page_free(a);
    let i = a.scan((a.hint / 64) as int, 0)->0;
    lemma_heap_page(a, i);
    i
}

/// What map then translate gives on a fresh page table, with no condition on the tables:
/// after `new` (whose root comes from an allocator over whole pages of DRAM) and a successful
/// `map` of `vaddr` to a page-aligned `paddr` (below 2^56) with flags below the address bits,
/// `translate` of any address `v` in the page of `vaddr` gives `paddr` plus the offset of `v`
/// in its page, and after `unmap` of `v` it gives nothing.
pub proof fn lemma_fresh_map_then_translate(
    m: Seq<u8>,
    a: AllocView,
    vaddr: usize,
    paddr: usize,
    flags: u64,
    v: usize,
)
    requires
        m.len() == DRAM_SIZE,
        heap_in_dram(a),
        alloc_table(m, a).2 is Some,
        map_spec(alloc_table(m, a).0, alloc_table(m, a).1, alloc_table(m, a).2->0, vaddr, paddr, flags).2,
        paddr % 4096 == 0,
        paddr < 0x100_0000_0000_0000,
        flags < 1024,
        v / 4096 == vaddr / 4096,
    ensures
        ({
            let (m1, a1, o) = alloc_table(m, a);
            let mf = map_spec(m1, a1, o->0, vaddr, paddr, flags).0;
            &&& find_ok(mf, o->0, v)
            &&& translate_spec(mf, o->0, v) == Some((paddr + v % 4096) as usize)
            &&& find_ok(unmap_spec(mf, o->0, v), o->0, v)
            &&& translate_spec(unmap_spec(mf, o->0, v), o->0, v) is None
        }),
{
    let (m1, a1, o) = alloc_table(m, a);
    let root = o->0;
    let i0 = lemma_alloc_table_page(m, a);
    let (i2, i1) = (vpn2(vaddr), vpn1(vaddr));
    lemma_pte_zero(m, root, root, i2);
    lemma_entry_bits(0, 0, 0, 0);
    // The root is zeroed, so the walk takes a fresh middle table t2.
    assert(!is_valid(pte(m1, root, i2)));
    let (mz, a2, o2) = alloc_table(m1, a1);
    if o2 is None {
        assert(descend(m1, a1, root, i2).2 is None);
        assert(false);
    }
    let t2 = o2->0;
    let i1x = lemma_alloc_table_page(m1, a1);
    assert(t2 != root);
    lemma_pages_apart(root, t2);
    let m2 = mem_write(mz, entry_addr(root, i2), table_pte(t2), 8);
    lemma_pte_zero(m1, t2, t2, i1);
    lemma_pte_write_other(mz, root, i2, table_pte(t2), t2, i1);
    assert(descend(m1, a1, root, i2) == (m2, a2, Some(t2)));
    // The middle table is zeroed too, so the walk takes a fresh last table t3.
    assert(!is_valid(pte(m2, t2, i1)));
    let (mz3, a3, o3) = alloc_table(m2, a2);
    if o3 is None {
        assert(descend(m2, a2, t2, i1).2 is None);
        assert(false);
    }
    let t3 = o3->0;
    let i2x = lemma_alloc_table_page(m2, a2);
    assert(t3 != root && t3 != t2);
    assert(create_path(m1, a1, root, vaddr) == Some((t2, t3)));
    lemma_map_then_translate(m1, a1, root, vaddr, paddr, flags, v);
    lemma_unmap_then_translate(map_spec(m1, a1, root, vaddr, paddr, flags).0, root, v);
}

/// After `unmap` of `vaddr`, `translate` of `vaddr` finds nothing, where the root, middle and
/// last tables on the way are distinct pages.
pub proof fn lemma_unmap_then_translate(m: Seq<u8>, root: usize, vaddr: usize)
    requires
        m.len() == DRAM_SIZE,
        find_ok(m, root, vaddr),
        root % 4096 == 0,
        find_table(m, root, vaddr) matches Some(t3) ==> (find_l2(m, root, vaddr) matches Some(t2) && t2 % 4096 == 0
            && t3 % 4096 == 0 && root != t2 && root != t3 && t2 != t3),
    ensures
        find_ok(unmap_spec(m, root, vaddr), root, vaddr),
        translate_spec(unmap_spec(m, root, vaddr), root, vaddr) is None,
{
    if let Some(t3) = find_table(m, root, vaddr) {
        let t2 = find_l2(m, root, vaddr).unwrap();
        let (i2, i1, i0) = (vpn2(vaddr), vpn1(vaddr), vpn0(vaddr));
        lemma_pages_apart(root, t3);
        lemma_pages_apart(t2, t3);
        lemma_pte_write_other(m, t3, i0, 0, root, i2);
        lemma_pte_write_other(m, t3, i0, 0, t2, i1);
        lemma_pte_write_same(m, t3, i0, 0);
        lemma_entry_bits(0, 0, 0, 0);
    }
}

/// A page table, known by the physical address of its root table.
pub struct PageTable {
    root_paddr: usize,
}

impl View for PageTable {
    type V = usize;

    closed spec fn view(&self) -> usize {
        self.root_paddr
    }
}

impl PageTable {
    /// A page table with a fresh zeroed root; `None` when no page is free.
    pub fn new(mem: &mut Memory, alloc: &mut PageAllocator) -> (r: Option<Self>)
        requires
            old(mem).wf(),
            old(alloc).wf(),
        ensures
            final(mem).wf(),
            final(alloc).wf(),
            ({
                let (m1, a1, o) = alloc_table(old(mem)@, old(alloc)@);
                &&& final(mem)@ == m1
                &&& final(alloc)@ == a1
                &&& match o {
                    None => r is None,
                    Some(p) => r matches Some(pt) && pt@ == p,
                }
            }),
    {
        match alloc.alloc_page(mem) {
            Some(root) => Some(Self { root_paddr: root }),
            None => None,
        }
    }

    pub fn root_paddr(&self) -> (r: usize)
        ensures
            r == self@,
    {
        self.root_paddr
    }

    fn read_pte(mem: &Memory, table: usize, index: usize) -> (e: u64)
        requires
            mem.wf(),
            table_in_dram(table),
            index < PAGE_ENTRIES,
        ensures
            e == pte(mem@, table, index),
    {
        match mem.read64((table + index * 8) as u64) {
            Some(e) => e,
            None => 0,
        }
    }

    fn write_pte(mem: &mut Memory, table: usize, index: usize, e: u64)
        requires
            old(mem).wf(),
            table_in_dram(table),
            index < PAGE_ENTRIES,
        ensures
            final(mem).wf(),
            final(mem)@ == mem_write(old(mem)@, entry_addr(table, index), e, 8),
    {
        mem.write64((table + index * 8) as u64, e);
    }

    /// One level of the building walk.
    fn descend(mem: &mut Memory, alloc: &mut PageAllocator, table: usize, index: usize) -> (r: Option<usize>)
        requires
            old(mem).wf(),
            old(alloc).wf(),
            table_in_dram(table),
            index < PAGE_ENTRIES,
        ensures
            final(mem).wf(),
            final(alloc).wf(),
            (final(mem)@, final(alloc)@, r) == descend(old(mem)@, old(alloc)@, table, index),
    {
        let e = Self::read_pte(mem, table, index);
        if e & PTE_V == 0 {
            match alloc.alloc_page(mem) {
                Some(new) => {
                    Self::write_pte(mem, table, index, ((new as u64 >> 12) << 10) | PTE_V);
                    Some(new)
                },
                None => None,
            }
        } else {
            Some((((e & PTE_PPN_MASK) >> 10) << 12) as usize)
        }
    }

    /// Walks to the last table for `vaddr`, building the missing ones.
    fn walk_create(&self, mem: &mut Memory, alloc: &mut PageAllocator, vaddr: usize) -> (r: Option<usize>)
        requires
            old(mem).wf(),
            old(alloc).wf(),
            create_ok(old(mem)@, old(alloc)@, self@, vaddr),
        ensures
            final(mem).wf(),
            final(alloc).wf(),
            (final(mem)@, final(alloc)@, r) == create_walk(old(mem)@, old(alloc)@, self@, vaddr),
            r matches Some(t) ==> table_in_dram(t),
    {
        let t2 = match Self::descend(mem, alloc, self.root_paddr, (vaddr / 0x4000_0000) % 512) {
            Some(t) => t,
            None => return None,
        };
        Self::descend(mem, alloc, t2, (vaddr / 0x20_0000) % 512)
    }

    /// Walks to the last table for `vaddr`; `None` where an entry on the way is not valid.
    fn walk_find(&self, mem: &Memory, vaddr: usize) -> (r: Option<usize>)
        requires
            mem.wf(),
            find_ok(mem@, self@, vaddr),
        ensures
            r == find_table(mem@, self@, vaddr),
    {
        let pte1 = Self::read_pte(mem, self.root_paddr, (vaddr / 0x4000_0000) % 512);
        if pte1 & PTE_V == 0 {
            return None;
        }
        let table = (((pte1 & PTE_PPN_MASK) >> 10) << 12) as usize;
        let pte2 = Self::read_pte(mem, table, (vaddr / 0x20_0000) % 512);
        if pte2 & PTE_V == 0 {
            return None;
        }
        Some((((pte2 & PTE_PPN_MASK) >> 10) << 12) as usize)
    }

    /// Maps the page of `vaddr` to the page of `paddr` with `flags` (and the valid, accessed
    /// and dirty bits), building missing tables; `false` when no page was free for one.
    pub fn map(&mut self, mem: &mut Memory, alloc: &mut PageAllocator, vaddr: usize, paddr: usize, flags: u64) -> (ok: bool)
        requires
            old(mem).wf(),
            old(alloc).wf(),
            create_ok(old(mem)@, old(alloc)@, old(self)@, vaddr),
        ensures
            final(self)@ == old(self)@,
            final(mem).wf(),
            final(alloc).wf(),
            (final(mem)@, final(alloc)@, ok) == map_spec(old(mem)@, old(alloc)@, old(self)@, vaddr, paddr, flags),
    {
        let vpn0 = (vaddr / 0x1000) % 512;
        let table = match self.walk_create(mem, alloc, vaddr) {
            Some(t) => t,
            None => return false,
        };
        let e = ((paddr as u64 >> 12) << 10) | flags | PTE_V | PTE_A | PTE_D;
        Self::write_pte(mem, table, vpn0, e);
        true
    }

    /// Clears the leaf entry of `vaddr`, where the tables leading to it exist.
    pub fn unmap(&mut self, mem: &mut Memory, vaddr: usize)
        requires
            old(mem).wf(),
            find_ok(old(mem)@, old(self)@, vaddr),
        ensures
            final(self)@ == old(self)@,
            final(mem).wf(),
            final(mem)@ == unmap_spec(old(mem)@, old(self)@, vaddr),
    {
        let vpn0 = (vaddr / 0x1000) % 512;
        if let Some(table) = self.walk_find(mem, vaddr) {
            Self::write_pte(mem, table, vpn0, 0);
        }
    }

    /// The physical address that `vaddr` maps to, if it is mapped.
    pub fn translate(&self, mem: &Memory, vaddr: usize) -> (r: Option<usize>)
        requires
            mem.wf(),
            find_ok(mem@, self@, vaddr),
        ensures
            r == translate_spec(mem@, self@, vaddr),
    {
        let vpn0 = (vaddr / 0x1000) % 512;
        let table = match self.walk_find(mem, vaddr) {
            Some(t) => t,
            None => return None,
        };
        let e = Self::read_pte(mem, table, vpn0);
        if e & PTE_V == 0 {
            return None;
        }
        let ppn = (((e & PTE_PPN_MASK) >> 10) << 12) as usize;
        Some(ppn | (vaddr & 0xFFF))
    }
}

} // verus!
