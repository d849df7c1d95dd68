use riscv_core::kernel::allocator::{PageAllocator, PAGE_SIZE};
use riscv_core::kernel::fs::SysFs;
use riscv_core::memory::Memory;

const HEAP: usize = 0x8040_0000;

#[test]
fn allocator_starts_all_free() {
    let a = PageAllocator::new(HEAP, HEAP + 70 * PAGE_SIZE + 100);
    assert_eq!(a.total(), 70);
    assert_eq!(a.free_count(), 70);
}

#[test]
fn allocator_hands_out_pages_in_order() {
    let mut mem = Memory::new();
    let mut a = PageAllocator::new(HEAP, HEAP + 70 * PAGE_SIZE);
    assert_eq!(a.alloc_page(&mut mem), Some(HEAP));
    assert_eq!(a.alloc_page(&mut mem), Some(HEAP + PAGE_SIZE));
    assert_eq!(a.free_count(), 68);
    a.free_page(HEAP);
    assert_eq!(a.free_count(), 69);
    // freeing an address outside the heap changes nothing
    a.free_page(HEAP - 1);
    a.free_page(HEAP + 70 * PAGE_SIZE);
    assert_eq!(a.free_count(), 69);
    // freeing twice does not count twice
    a.free_page(HEAP);
    assert_eq!(a.free_count(), 69);
}

#[test]
fn allocator_exhausts_and_recovers() {
    let mut mem = Memory::new();
    let mut a = PageAllocator::new(HEAP, HEAP + 3 * PAGE_SIZE);
    assert!(a.alloc_page(&mut mem).is_some());
    assert!(a.alloc_page(&mut mem).is_some());
    assert!(a.alloc_page(&mut mem).is_some());
    assert_eq!(a.alloc_page(&mut mem), None);
    a.free_page(HEAP + PAGE_SIZE);
    assert_eq!(a.alloc_page(&mut mem), Some(HEAP + PAGE_SIZE));
}

#[test]
fn allocator_contiguous_runs() {
    let mut mem = Memory::new();
    let mut a = PageAllocator::new(HEAP, HEAP + 8 * PAGE_SIZE);
    assert_eq!(a.alloc_contig(&mut mem, 0), None);
    assert_eq!(a.alloc_contig(&mut mem, 9), None);
    assert_eq!(a.alloc_page(&mut mem), Some(HEAP));
    assert_eq!(a.alloc_contig(&mut mem, 3), Some(HEAP + PAGE_SIZE));
    assert_eq!(a.free_count(), 4);
    assert_eq!(a.alloc_page(&mut mem), Some(HEAP + 4 * PAGE_SIZE));
}

#[test]
fn allocator_empty_heap() {
    let mut mem = Memory::new();
    let mut a = PageAllocator::new(HEAP, HEAP + 100);
    assert_eq!(a.total(), 0);
    assert_eq!(a.alloc_page(&mut mem), None);
    assert_eq!(a.alloc_contig(&mut mem, 1), None);
}

#[test]
fn allocator_zeroes_pages() {
    let mut mem = Memory::new();
    mem.write64(HEAP as u64, u64::MAX);
    mem.write64((HEAP + 2 * PAGE_SIZE + 8) as u64, 0x1234);
    mem.write64((HEAP + 3 * PAGE_SIZE) as u64, 0x5678);
    let mut a = PageAllocator::new(HEAP, HEAP + 8 * PAGE_SIZE);
    assert_eq!(a.alloc_page(&mut mem), Some(HEAP));
    assert_eq!(mem.read64(HEAP as u64), Some(0));
    assert_eq!(a.alloc_contig(&mut mem, 2), Some(HEAP + PAGE_SIZE));
    assert_eq!(mem.read64((HEAP + 2 * PAGE_SIZE + 8) as u64), Some(0));
    // The page after the run is left alone.
    assert_eq!(mem.read64((HEAP + 3 * PAGE_SIZE) as u64), Some(0x5678));
}

#[test]
fn fs_create_and_duplicate() {
    let mut fs = SysFs::new();
    assert!(fs.create("hello.txt", 10));
    assert!(!fs.create("hello.txt", 5));
    assert!(fs.create("other", 0));
}

#[test]
fn fs_table_fills_up() {
    let mut fs = SysFs::new();
    // the root directory takes one of the 32 entries
    for i in 0..31 {
        let name = format!("f{i:02}");
        assert!(fs.create(&name, i), "create {name}");
    }
    assert!(!fs.create("one-too-many", 1));
}

#[test]
fn fs_write_unknown_file() {
    let mut fs = SysFs::new();
    assert_eq!(fs.write("missing", b"data"), None);
    assert_eq!(fs.extent("missing"), None);
    let mut buf = [7u8; 4];
    assert_eq!(fs.read("missing", &mut buf, &[]), None);
    assert_eq!(buf, [7u8; 4]);
}

#[test]
fn fs_write_gives_padded_blocks() {
    let mut fs = SysFs::new();
    assert!(fs.create("a.bin", 0));
    let data: Vec<u8> = (0..700u32).map(|i| (i % 251) as u8).collect();
    let (start, blocks) = fs.write("a.bin", &data).unwrap();
    // The first 64 sectors are the file system's own.
    assert_eq!(start, 64);
    assert_eq!(blocks.len(), 2);
    assert_eq!(&blocks[0][..], &data[..512]);
    assert_eq!(&blocks[1][..188], &data[512..]);
    assert!(blocks[1][188..].iter().all(|&b| b == 0));
    assert_eq!(fs.extent("a.bin"), Some((64, 700)));
    // A second file goes after the first one's sectors.
    assert!(fs.create("b.bin", 0));
    let (start_b, blocks_b) = fs.write("b.bin", b"xyz").unwrap();
    assert_eq!(start_b, 66);
    assert_eq!(blocks_b.len(), 1);
    assert_eq!(fs.extent("b.bin"), Some((66, 3)));
}

#[test]
fn fs_write_then_read_round_trip() {
    let mut fs = SysFs::new();
    assert!(fs.create("notes", 0));
    let data: Vec<u8> = (0..1100u32).map(|i| (i * 7 % 256) as u8).collect();
    let (_, blocks) = fs.write("notes", &data).unwrap();
    let mut buf = vec![0xEEu8; 1200];
    assert_eq!(fs.read("notes", &mut buf, &blocks), Some(1100));
    assert_eq!(&buf[..1100], &data[..]);
    assert!(buf[1100..].iter().all(|&b| b == 0xEE));
}

#[test]
fn fs_read_stops_when_buffer_full() {
    let mut fs = SysFs::new();
    assert!(fs.create("big", 0));
    let data: Vec<u8> = (0..1500u32).map(|i| (i % 256) as u8).collect();
    let (_, blocks) = fs.write("big", &data).unwrap();
    let mut small = vec![0u8; 600];
    // Only the first two sectors are needed.
    assert_eq!(fs.read("big", &mut small, &blocks[..2]), Some(600));
    assert_eq!(&small[..], &data[..600]);
    let mut empty: Vec<u8> = Vec::new();
    assert_eq!(fs.read("big", &mut empty, &blocks[..1]), Some(0));
    assert_eq!(fs.read("big", &mut empty, &[]), None);
}

#[test]
fn fs_read_fails_on_missing_sector() {
    let mut fs = SysFs::new();
    assert!(fs.create("big", 0));
    let data: Vec<u8> = (0..1500u32).map(|i| (i % 256) as u8).collect();
    let (_, blocks) = fs.write("big", &data).unwrap();
    let mut buf = vec![0u8; 2000];
    // The disk returned only the first sector: what was copied stays.
    assert_eq!(fs.read("big", &mut buf, &blocks[..1]), None);
    assert_eq!(&buf[..512], &data[..512]);
    assert!(buf[512..].iter().all(|&b| b == 0));
}

#[test]
fn fs_empty_file() {
    let mut fs = SysFs::new();
    assert!(fs.create("empty", 0));
    let (_, blocks) = fs.write("empty", b"").unwrap();
    assert!(blocks.is_empty());
    let mut buf = [1u8; 8];
    assert_eq!(fs.read("empty", &mut buf, &[]), Some(0));
    assert_eq!(buf, [1u8; 8]);
}
