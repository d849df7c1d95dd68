use riscv_core::kernel::allocator::{PageAllocator, PAGE_SIZE};
use riscv_core::kernel::paging::{PageTable, READ_EXECUTE, READ_WRITE, READ_WRITE_EXECUTE};
use riscv_core::memory::Memory;

const HEAP: usize = 0x8040_0000;

#[test]
fn page_table_fresh_maps_nothing() {
    let mut mem = Memory::new();
    let mut alloc = PageAllocator::new(HEAP, HEAP + 8 * PAGE_SIZE);
    let pt = PageTable::new(&mut mem, &mut alloc).unwrap();
    assert_eq!(pt.root_paddr(), HEAP);
    assert_eq!(alloc.free_count(), 7);
    assert_eq!(pt.translate(&mem, 0x4000_1234), None);
    assert_eq!(pt.translate(&mem, 0), None);
}

#[test]
fn page_table_map_then_translate() {
    let mut mem = Memory::new();
    let mut alloc = PageAllocator::new(HEAP, HEAP + 16 * PAGE_SIZE);
    let mut pt = PageTable::new(&mut mem, &mut alloc).unwrap();
    assert!(pt.map(&mut mem, &mut alloc, 0x4000_1000, 0x8030_0000, READ_WRITE));
    assert_eq!(pt.translate(&mem, 0x4000_1234), Some(0x8030_0234));
    assert_eq!(pt.translate(&mem, 0x4000_1000), Some(0x8030_0000));
    // The root, a middle table and a last table.
    assert_eq!(alloc.free_count(), 13);
    // Root entry 1 points at the middle table, its entry 0 at the last table, whose entry 1
    // is the leaf with the valid, accessed and dirty bits.
    // Entries hold the page number in bits 53..10, as Sv39 reads them.
    assert_eq!(mem.read64((HEAP + 8) as u64), Some((((HEAP + PAGE_SIZE) as u64 >> 12) << 10) | 1));
    assert_eq!(mem.read64((HEAP + PAGE_SIZE) as u64), Some((((HEAP + 2 * PAGE_SIZE) as u64 >> 12) << 10) | 1));
    assert_eq!(mem.read64((HEAP + 2 * PAGE_SIZE + 8) as u64), Some((0x8030_0u64 << 10) | READ_WRITE | 1 | 64 | 128));
    // Neighbouring pages stay unmapped.
    assert_eq!(pt.translate(&mem, 0x4000_2000), None);
    assert_eq!(pt.translate(&mem, 0x4020_1000), None);
}

#[test]
fn page_table_shares_tables() {
    let mut mem = Memory::new();
    let mut alloc = PageAllocator::new(HEAP, HEAP + 16 * PAGE_SIZE);
    let mut pt = PageTable::new(&mut mem, &mut alloc).unwrap();
    assert!(pt.map(&mut mem, &mut alloc, 0x4000_1000, 0x8030_0000, READ_WRITE));
    assert!(pt.map(&mut mem, &mut alloc, 0x4000_2000, 0x8040_0000, READ_EXECUTE));
    assert_eq!(alloc.free_count(), 13);
    assert!(pt.map(&mut mem, &mut alloc, 0x4020_0000, 0x8050_0000, READ_WRITE_EXECUTE));
    assert_eq!(alloc.free_count(), 12);
    assert_eq!(pt.translate(&mem, 0x4000_1ff8), Some(0x8030_0ff8));
    assert_eq!(pt.translate(&mem, 0x4000_2004), Some(0x8040_0004));
    assert_eq!(pt.translate(&mem, 0x4020_0010), Some(0x8050_0010));
}

#[test]
fn page_table_remap_replaces() {
    let mut mem = Memory::new();
    let mut alloc = PageAllocator::new(HEAP, HEAP + 16 * PAGE_SIZE);
    let mut pt = PageTable::new(&mut mem, &mut alloc).unwrap();
    assert!(pt.map(&mut mem, &mut alloc, 0x1000, 0x8030_0000, READ_WRITE));
    assert!(pt.map(&mut mem, &mut alloc, 0x1000, 0x8060_0000, READ_WRITE));
    assert_eq!(pt.translate(&mem, 0x1010), Some(0x8060_0010));
}

#[test]
fn page_table_unmap_then_translate() {
    let mut mem = Memory::new();
    let mut alloc = PageAllocator::new(HEAP, HEAP + 16 * PAGE_SIZE);
    let mut pt = PageTable::new(&mut mem, &mut alloc).unwrap();
    assert!(pt.map(&mut mem, &mut alloc, 0x4000_1000, 0x8030_0000, READ_WRITE));
    assert!(pt.map(&mut mem, &mut alloc, 0x4000_2000, 0x8040_0000, READ_WRITE));
    pt.unmap(&mut mem, 0x4000_1000);
    assert_eq!(pt.translate(&mem, 0x4000_1234), None);
    assert_eq!(pt.translate(&mem, 0x4000_2008), Some(0x8040_0008));
    assert_eq!(mem.read64((HEAP + 2 * PAGE_SIZE + 8) as u64), Some(0));
    // Unmapping where no table exists changes nothing.
    pt.unmap(&mut mem, 0x7000_0000);
    assert_eq!(pt.translate(&mem, 0x4000_2008), Some(0x8040_0008));
}

#[test]
fn page_table_runs_out_of_pages() {
    let mut mem = Memory::new();
    let mut alloc = PageAllocator::new(HEAP, HEAP + 2 * PAGE_SIZE);
    let mut pt = PageTable::new(&mut mem, &mut alloc).unwrap();
    // The middle table is built, the last one finds no page.
    assert!(!pt.map(&mut mem, &mut alloc, 0x4000_1000, 0x8030_0000, READ_WRITE));
    assert_eq!(alloc.free_count(), 0);
    assert_eq!(pt.translate(&mem, 0x4000_1000), None);
    assert!(PageTable::new(&mut mem, &mut alloc).is_none());
}
