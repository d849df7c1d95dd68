//! The guest kernel's flat file system: a table of named files and a bitmap of the disk's
//! 512-byte sectors.
use vstd::prelude::*;
use vstd::string::StringSliceAdditionalSpecFns;
use crate::kernel::allocator::taken;
use crate::memory::{copy_bytes, copy_to_slice, copy_to_vec};

verus! {

pub const BLOCK: usize = 512;
pub const MAX_FILES: usize = 32;
pub const NAMELEN: usize = 28;
pub const TOTAL_SECTORS: u64 = 131072;
pub const BITMAP_WORDS: usize = 2048;
/// Sectors before this one hold the file system's own data and are never handed out.
pub const FIRST_DATA_SECTOR: u64 = 64;

/// A file-table entry.
#[derive(Clone, Copy)]
pub struct Inode {
    pub name: [u8; 28],
    pub size: usize,
    pub start: u64,
    pub used: bool,
}

/// Abstract file-table entry.
pub struct InodeView {
    pub name: Seq<u8>,
    pub size: usize,
    pub start: u64,
    pub used: bool,
}

impl View for Inode {
    type V = InodeView;

    open spec fn view(&self) -> InodeView {
        InodeView { name: self.name@, size: self.size, start: self.start, used: self.used }
    }
}

/// Whether the entry `e` is a file whose stored name starts with `name` (names of up to
/// NAMELEN bytes only).
pub open spec fn name_matches(e: InodeView, name: Seq<u8>) -> bool {
    e.used && name.len() <= NAMELEN && e.name.take(name.len() as int) == name
}

/// The first entry among `inodes[k..]` that `name_matches`.
pub open spec fn find_from(inodes: Seq<InodeView>, name: Seq<u8>, k: nat) -> Option<usize>
    decreases inodes.len() - k,
{
    if k >= inodes.len() {
        None
    } else if name_matches(inodes[k as int], name) {
        Some(k as usize)
    } else {
        find_from(inodes, name, k + 1)
    }
}

/// The first unused entry among `inodes[k..]`.
pub open spec fn free_slot_from(inodes: Seq<InodeView>, k: nat) -> Option<usize>
    decreases inodes.len() - k,
{
    if k >= inodes.len() {
        None
    } else if !inodes[k as int].used {
        Some(k as usize)
    } else {
        free_slot_from(inodes, k + 1)
    }
}

/// The stored form of a name: its first NAMELEN - 1 bytes, NUL-padded to NAMELEN.
pub open spec fn stored_name(name: Seq<u8>) -> Seq<u8> {
    Seq::new(NAMELEN as nat, |i: int| if i < name.len() && i < NAMELEN - 1 { name[i] } else { 0u8 })
}

/// The first sector of a run of `count` free sectors, scanning sectors `i..TOTAL_SECTORS`
/// with `run` free ones just seen starting at `start`.
pub open spec fn sector_scan(sb: Seq<u64>, count: nat, i: nat, run: nat, start: nat) -> Option<u64>
    decreases TOTAL_SECTORS - i,
{
    if i >= TOTAL_SECTORS {
        None
    } else if !taken(sb, i as int) {
        let start2 = if run == 0 { i } else { start };
        if run + 1 >= count {
            Some(start2 as u64)
        } else {
            sector_scan(sb, count, i + 1, run + 1, start2)
        }
    } else {
        sector_scan(sb, count, i + 1, 0, start)
    }
}

/// The bitmap with sector `i` marked taken (`take`) or free.
pub open spec fn set_sector(sb: Seq<u64>, i: int, take: bool) -> Seq<u64> {
    let w = sb[i / 64];
    let m = 1u64 << ((i % 64) as u64);
    sb.update(i / 64, if take { w | m } else { w & !m })
}

/// The bitmap with the `k` sectors from `start` on marked taken or free.
pub open spec fn set_sectors(sb: Seq<u64>, start: int, k: nat, take: bool) -> Seq<u64>
    decreases k,
{
    if k == 0 {
        sb
    } else {
        set_sector(set_sectors(sb, start, (k - 1) as nat, take), start + k - 1, take)
    }
}

/// The number of sectors that `len` bytes take.
pub open spec fn sectors_for(len: nat) -> nat {
    (len + 511) / 512
}

/// Block `i` of `data` as the disk stores it: BLOCK bytes from `i * BLOCK` on, zero-padded
/// past the end of `data`.
pub open spec fn block_of(data: Seq<u8>, i: int) -> Seq<u8> {
    Seq::new(BLOCK as nat, |k: int| if i * 512 + k < data.len() { data[i * 512 + k] } else { 0u8 })
}

/// The blocks that hold `data`, in order.
pub open spec fn blocks_of(data: Seq<u8>) -> Seq<Seq<u8>> {
    Seq::new(sectors_for(data.len()), |i: int| block_of(data, i))
}

/// The file system after recording `data` as the contents of file `name`, and the first of
/// the sectors it was given: the first run of free data sectors long enough is taken, and
/// the file's entry records its start and size. `None` when no file has that name or no run
/// is long enough.
pub open spec fn write_spec(fs: SysFsView, name: Seq<u8>, data: Seq<u8>) -> Option<(SysFsView, u64)> {
    match find_from(fs.inodes, name, 0) {
        None => None,
        Some(idx) => match sector_scan(fs.sb, sectors_for(data.len()), FIRST_DATA_SECTOR as nat, 0, 0) {
            None => None,
            Some(start) => Some(
                (
                    SysFsView {
                        inodes: fs.inodes.update(
                            idx as int,
                            InodeView { start, size: data.len() as usize, ..fs.inodes[idx as int] },
                        ),
                        sb: set_sectors(fs.sb, start as int, sectors_for(data.len()), true),
                    },
                    start,
                ),
            ),
        },
    }
}

/// How many of a file's sectors `read` fetches into a buffer of `room` bytes: those that
/// hold the bytes that fit, and the first one even when none fit.
pub open spec fn sectors_needed(size: nat, room: nat) -> nat {
    if size == 0 {
        0
    } else if room == 0 {
        1
    } else {
        sectors_for(if size < room { size } else { room })
    }
}

/// `buf` with its first `n` bytes taken from the sector contents `secs`, in order.
pub open spec fn fill_from(buf: Seq<u8>, secs: Seq<Seq<u8>>, n: nat) -> Seq<u8> {
    Seq::new(buf.len(), |t: int| if t < n { secs[t / 512][t % 512] } else { buf[t] })
}

/// The smallest of three numbers.
pub open spec fn min3(a: nat, b: nat, c: nat) -> nat {
    if a <= b && a <= c {
        a
    } else if b <= c {
        b
    } else {
        c
    }
}

/// What reading file `name` into `buf` gives, `secs` being the contents of the file's
/// sectors as the disk returned them, in order: the bytes of the file that fit in `buf` are
/// copied and counted. `None` when no file has that name, or when `secs` ends before the
/// sectors that `read` fetches; the bytes copied before that stay.
pub open spec fn read_spec(fs: SysFsView, name: Seq<u8>, buf: Seq<u8>, secs: Seq<Seq<u8>>) -> (Option<usize>, Seq<u8>) {
    match find_from(fs.inodes, name, 0) {
        None => (None, buf),
        Some(idx) => {
            let size = fs.inodes[idx as int].size as nat;
            (
                if secs.len() < sectors_needed(size, buf.len()) {
                    None
                } else {
                    Some((if size < buf.len() { size } else { buf.len() }) as usize)
                },
                fill_from(buf, secs, min3(size, buf.len(), 512 * secs.len())),
            )
        },
    }
}

/// Where no entry from `k` on matches `name`, changing one entry at or past `k` to a matching
/// one makes the search from `k` find exactly it.
proof fn lemma_find_from_update(inodes: Seq<InodeView>, name: Seq<u8>, k: nat, slot: int, e: InodeView)
    requires
        find_from(inodes, name, k) is None,
        k <= slot < inodes.len(),
        inodes.len() <= MAX_FILES,
        name_matches(e, name),
    ensures
        find_from(inodes.update(slot, e), name, k) == Some(slot as usize),
    decreases slot - k,
{
    if k < slot {
        lemma_find_from_update(inodes, name, k + 1, slot, e);
    }
}

/// A file that `create` adds is found by its name: creating a file and then looking it up
/// gives the entry just written (for names that fit the table, NAMELEN - 1 bytes).
pub proof fn lemma_create_then_find(inodes: Seq<InodeView>, name: Seq<u8>, size: usize)
    requires
        find_from(inodes, name, 0) is None,
        free_slot_from(inodes, 0) is Some,
        name.len() < NAMELEN,
        inodes.len() == MAX_FILES,
    ensures
        ({
            let slot = free_slot_from(inodes, 0)->0;
            let e = InodeView { name: stored_name(name), size, start: 0, used: true };
            find_from(inodes.update(slot as int, e), name, 0) == Some(slot)
        }),
{
    lemma_free_slot_bound(inodes, 0);
    let slot = free_slot_from(inodes, 0)->0;
    let e = InodeView { name: stored_name(name), size, start: 0, used: true };
    assert(stored_name(name).take(name.len() as int) =~= name);
    lemma_find_from_update(inodes, name, 0, slot as int, e);
}

/// Where `read` stands after copying from `i` sectors: when it stops because the buffer is
/// full or the file's sectors are all read, `i` is the number of sectors it fetches and the
/// copy holds as many bytes as fit; before that, more sectors are needed.
proof fn lemma_read_progress(size: nat, room: nat, i: nat)
    ensures
        1 <= i <= sectors_for(size) && min3(size, room, 512 * i) >= room && (i == 1 || min3(size, room, (512 * (i - 1)) as nat) < room)
            ==> i == sectors_needed(size, room) && min3(size, room, 512 * i) == (if size < room { size } else { room }),
        i == sectors_for(size) && (i == 0 || min3(size, room, 512 * i) < room) ==> i == sectors_needed(size, room)
            && min3(size, room, 512 * i) == (if size < room { size } else { room }),
        i < sectors_for(size) && (i == 0 || min3(size, room, 512 * i) < room) ==> i < sectors_needed(size, room),
{
}

/// Replacing the entry that the search from `k` finds by another entry that matches keeps
/// the search's result.
proof fn lemma_find_from_keep(inodes: Seq<InodeView>, name: Seq<u8>, k: nat, e: InodeView)
    requires
        find_from(inodes, name, k) is Some,
        name_matches(e, name),
        inodes.len() <= MAX_FILES,
    ensures
        find_from(inodes.update(find_from(inodes, name, k)->0 as int, e), name, k) == find_from(inodes, name, k),
    decreases inodes.len() - k,
{
    let idx = find_from(inodes, name, k)->0;
    lemma_find_from_bound(inodes, name, k);
    if k < idx {
        lemma_find_from_keep(inodes, name, k + 1, e);
    }
}

/// What a read gives back of a write: after `write` records `data` as file `name`, the file
/// starts at the sector it was given and holds `data.len()` bytes, and reading it from the
/// blocks that `write` produced into any buffer returns k, the smaller of `data.len()` and
/// the buffer's length, with the buffer's first k bytes those of `data` and the rest
/// untouched.
pub proof fn lemma_write_then_read(fs: SysFsView, name: Seq<u8>, data: Seq<u8>, buf: Seq<u8>)
    requires
        fs.inodes.len() == MAX_FILES,
        data.len() <= usize::MAX,
        write_spec(fs, name, data) is Some,
    ensures
        ({
            let (fs2, start) = write_spec(fs, name, data)->0;
            let (r, out) = read_spec(fs2, name, buf, blocks_of(data));
            let k = if data.len() < buf.len() { data.len() } else { buf.len() };
            &&& find_from(fs2.inodes, name, 0) matches Some(i) && fs2.inodes[i as int].start == start
                && fs2.inodes[i as int].size == data.len()
            &&& r == Some(k as usize)
            &&& out.take(k as int) == data.take(k as int)
            &&& out.skip(k as int) == buf.skip(k as int)
        }),
{
    let idx = find_from(fs.inodes, name, 0)->0;
    lemma_find_from_bound(fs.inodes, name, 0);
    let (fs2, start) = write_spec(fs, name, data)->0;
    let e = InodeView { start, size: data.len() as usize, ..fs.inodes[idx as int] };
    lemma_find_from_keep(fs.inodes, name, 0, e);
    assert(fs2.inodes[idx as int] == e);
    let len = data.len();
    let room = buf.len();
    let k = if len < room { len } else { room };
    let secs = blocks_of(data);
    assert(512 * sectors_for(len) >= len) by (nonlinear_arith);
    assert(sectors_for(k) <= sectors_for(len)) by (nonlinear_arith)
        requires
            k <= len,
    ;
    assert(len > 0 ==> sectors_for(len) >= 1) by (nonlinear_arith);
    assert(sectors_needed(len, room) <= secs.len());
    assert(min3(len, room, 512 * secs.len()) == k);
    let (r, out) = read_spec(fs2, name, buf, secs);
    assert forall|t: int| 0 <= t < k implies #[trigger] out[t] == data[t] by {
        vstd::arithmetic::div_mod::lemma_fundamental_div_mod(t, 512);
        assert(t / 512 < sectors_for(len)) by (nonlinear_arith)
            requires
                0 <= t < len,
        ;
    }
    assert(out.take(k as int) =~= data.take(k as int));
    assert(out.skip(k as int) =~= buf.skip(k as int));
}

/// Reading a name that no file matches gives `None` and leaves the buffer alone.
pub proof fn lemma_read_missing(fs: SysFsView, name: Seq<u8>, buf: Seq<u8>, secs: Seq<Seq<u8>>)
    requires
        find_from(fs.inodes, name, 0) is None,
    ensures
        read_spec(fs, name, buf, secs) == (None::<usize>, buf),
{
}

/// `create` fails where a used entry already matches the name, and where every entry is
/// used.
pub proof fn lemma_create_fails(inodes: Seq<InodeView>, name: Seq<u8>, i: int)
    requires
        inodes.len() == MAX_FILES,
    ensures
        0 <= i < inodes.len() && name_matches(inodes[i], name) ==> find_from(inodes, name, 0) is Some,
        (forall|j: int| 0 <= j < inodes.len() ==> (#[trigger] inodes[j]).used) ==> free_slot_from(inodes, 0) is None,
{
    if 0 <= i < inodes.len() && name_matches(inodes[i], name) {
        lemma_find_reaches(inodes, name, 0, i);
    }
    if forall|j: int| 0 <= j < inodes.len() ==> (#[trigger] inodes[j]).used {
        lemma_all_used(inodes, 0);
    }
}

proof fn lemma_find_reaches(inodes: Seq<InodeView>, name: Seq<u8>, k: nat, i: int)
    requires
        k <= i < inodes.len(),
        name_matches(inodes[i], name),
    ensures
        find_from(inodes, name, k) is Some,
    decreases i - k,
{
    if k < i && !name_matches(inodes[k as int], name) {
        lemma_find_reaches(inodes, name, k + 1, i);
    }
}

proof fn lemma_all_used(inodes: Seq<InodeView>, k: nat)
    requires
        forall|j: int| 0 <= j < inodes.len() ==> (#[trigger] inodes[j]).used,
    ensures
        free_slot_from(inodes, k) is None,
    decreases inodes.len() - k,
{
    if k < inodes.len() {
        lemma_all_used(inodes, k + 1);
    }
}

/// An entry found from `k` lies at or past `k` and inside the table, and matches.
proof fn lemma_find_from_bound(inodes: Seq<InodeView>, name: Seq<u8>, k: nat)
    requires
        inodes.len() <= MAX_FILES,
    ensures
        find_from(inodes, name, k) matches Some(s) ==> k <= s < inodes.len() && name_matches(inodes[s as int], name),
    decreases inodes.len() - k,
{
    if k < inodes.len() && !name_matches(inodes[k as int], name) {
        lemma_find_from_bound(inodes, name, k + 1);
    }
}

/// A second `create` of a name just created fails: the file is found by that name, so the
/// condition under which `create` succeeds no longer holds.
pub proof fn lemma_create_twice_fails(inodes: Seq<InodeView>, name: Seq<u8>, size: usize)
    requires
        find_from(inodes, name, 0) is None,
        free_slot_from(inodes, 0) is Some,
        name.len() < NAMELEN,
        inodes.len() == MAX_FILES,
    ensures
        ({
            let slot = free_slot_from(inodes, 0)->0;
            let after = inodes.update(slot as int, InodeView { name: stored_name(name), size, start: 0, used: true });
            !(find_from(after, name, 0) is None && free_slot_from(after, 0) is Some)
        }),
{
    lemma_create_then_find(inodes, name, size);
}

/// A free slot found from `k` lies at or past `k` and inside the table.
proof fn lemma_free_slot_bound(inodes: Seq<InodeView>, k: nat)
    requires
        inodes.len() <= MAX_FILES,
    ensures
        free_slot_from(inodes, k) matches Some(s) ==> k <= s < inodes.len(),
    decreases inodes.len() - k,
{
    if k < inodes.len() && inodes[k as int].used {
        lemma_free_slot_bound(inodes, k + 1);
    }
}

/// Abstract state of the file system.
pub struct SysFsView {
    pub inodes: Seq<InodeView>,
    pub sb: Seq<u64>,
}

/// The file table and the sector bitmap.
pub struct SysFs {
    inodes: [Inode; 32],
    sb: [u64; 2048],
}

impl View for SysFs {
    type V = SysFsView;

    closed spec fn view(&self) -> SysFsView {
        SysFsView { inodes: self.inodes@.map_values(|e: Inode| e@), sb: self.sb@ }
    }
}

impl SysFs {
    /// A fresh file system: the first 64 sectors reserved, only the root directory `/` in
    /// the file table.
    pub fn new() -> (fs: Self)
        ensures
            fs@.sb == Seq::new(BITMAP_WORDS as nat, |i: int| if i == 0 { !0u64 } else { 0u64 }),
            fs@.inodes.len() == MAX_FILES,
            fs@.inodes[0] == (InodeView { name: seq![0x2Fu8].add(Seq::new(27, |i: int| 0u8)), size: 0, start: 0, used: true }),
            forall|k: int| 1 <= k < MAX_FILES ==> !(#[trigger] fs@.inodes[k]).used,
    {
        let empty = Inode { name: [0u8; 28], size: 0, start: 0, used: false };
        let table = [empty; 32];
        assert(forall|k: int| 0 <= k < MAX_FILES ==> table@[k] == empty);
        let mut fs = Self { inodes: table, sb: [0u64; 2048] };
        // Sector 0 holds the boot block.
        fs.sb[0] = 1;
        fs.load_bitmap();
        let mut n = [0u8; 28];
        n[0] = 0x2F; // '/'
        fs.inodes[0] = Inode { name: n, size: 0, start: 0, used: true };
        proof {
            assert forall|k: int| 1 <= k < MAX_FILES implies !(#[trigger] fs@.inodes[k]).used by {
                assert(fs.inodes@[k] == table@[k]);
            }
            assert(fs@.sb =~= Seq::new(BITMAP_WORDS as nat, |i: int| if i == 0 { !0u64 } else { 0u64 }));
            assert(fs@.inodes[0].name =~= seq![0x2Fu8].add(Seq::new(27, |i: int| 0u8)));
        }
        fs
    }

    /// Reserves the file system's own sectors (the first 64) in the bitmap.
    fn load_bitmap(&mut self)
        ensures
            final(self)@.sb == old(self)@.sb.update(0, !0u64),
            final(self).inodes == old(self).inodes,
    {
        self.sb[0] = !0u64;
        proof {
            assert(self@.sb =~= old(self)@.sb.update(0, !0u64));
        }
    }

    fn is_taken(&self, i: u64) -> (r: bool)
        requires
            i < TOTAL_SECTORS,
        ensures
            r == taken(self@.sb, i as int),
    {
        let word = (i / 64) as usize;
        let bit = i % 64;
        (self.sb[word] >> bit) & 1 == 1
    }

    fn set_sector(&mut self, i: u64, take: bool)
        requires
            i < TOTAL_SECTORS,
        ensures
            final(self)@.sb == set_sector(old(self)@.sb, i as int, take),
            final(self)@.inodes == old(self)@.inodes,
    {
        let w = (i / 64) as usize;
        let b = i % 64;
        if take {
            self.sb[w] = self.sb[w] | (1u64 << b);
        } else {
            self.sb[w] = self.sb[w] & !(1u64 << b);
        }
        proof {
            assert(self@.sb =~= set_sector(old(self)@.sb, i as int, take));
            assert(self@.inodes =~= old(self)@.inodes);
        }
    }

    /// Finds `count` consecutive free data sectors (the first run, in sector order), marks
    /// them taken and returns the first. `None` when there is no such run.
    fn alloc_sectors(&mut self, count: usize) -> (r: Option<u64>)
        ensures
            r == sector_scan(old(self)@.sb, count as nat, FIRST_DATA_SECTOR as nat, 0, 0),
            final(self)@.inodes == old(self)@.inodes,
            final(self)@.sb == match r {
                Some(s) => set_sectors(old(self)@.sb, s as int, count as nat, true),
                None => old(self)@.sb,
            },
    {
        let ghost sb0 = self@.sb;
        let mut run: u64 = 0;
        let mut start: u64 = 0;
        let mut i: u64 = FIRST_DATA_SECTOR;
        while i < TOTAL_SECTORS
            invariant
                self@.sb == sb0,
                self@.inodes == old(self)@.inodes,
                sb0 == old(self)@.sb,
                FIRST_DATA_SECTOR <= i <= TOTAL_SECTORS,
                run <= i,
                run > 0 ==> start + run == i,
                sector_scan(sb0, count as nat, i as nat, run as nat, start as nat) == sector_scan(
                    sb0,
                    count as nat,
                    FIRST_DATA_SECTOR as nat,
                    0,
                    0,
                ),
            decreases TOTAL_SECTORS - i,
        {
            if !self.is_taken(i) {
                if run == 0 {
                    start = i;
                }
                run = run + 1;
                if run >= count as u64 {
                    let mut j: u64 = 0;
                    while j < count as u64
                        invariant
                            j <= count,
                            start + count <= TOTAL_SECTORS,
                            self@.sb == set_sectors(sb0, start as int, j as nat, true),
                            self@.inodes == old(self)@.inodes,
                        decreases count - j,
                    {
                        self.set_sector(start + j, true);
                        j = j + 1;
                    }
                    return Some(start);
                }
            } else {
                run = 0;
            }
            i = i + 1;
        }
        None
    }

    /// Marks the `count` sectors from `start` on free.
    fn free_sectors(&mut self, start: u64, count: usize)
        requires
            start + count <= TOTAL_SECTORS,
        ensures
            final(self)@.sb == set_sectors(old(self)@.sb, start as int, count as nat, false),
            final(self)@.inodes == old(self)@.inodes,
    {
        let mut i: u64 = 0;
        while i < count as u64
            invariant
                i <= count,
                start + count <= TOTAL_SECTORS,
                self@.sb == set_sectors(old(self)@.sb, start as int, i as nat, false),
                self@.inodes == old(self)@.inodes,
            decreases count - i,
        {
            self.set_sector(start + i, false);
            i = i + 1;
        }
    }

    /// The index of the first file whose stored name starts with `name`.
    fn find_inode(&self, name: &str) -> (r: Option<usize>)
        ensures
            r == find_from(self@.inodes, name.spec_bytes(), 0),
    {
        let b = name.as_bytes();
        let mut k: usize = 0;
        while k < MAX_FILES
            invariant
                k <= MAX_FILES,
                b@ == name.spec_bytes(),
                self@.inodes.len() == MAX_FILES,
                find_from(self@.inodes, b@, k as nat) == find_from(self@.inodes, b@, 0),
            decreases MAX_FILES - k,
        {
            let e = &self.inodes[k];
            if e.used && b.len() <= NAMELEN {
                let mut same = true;
                let mut j: usize = 0;
                while j < b.len()
                    invariant
                        j <= b@.len() <= NAMELEN,
                        e.name@.len() == NAMELEN,
                        same == (forall|t: int| 0 <= t < j ==> e.name@[t] == b@[t]),
                    decreases b@.len() - j,
                {
                    if e.name[j] != b[j] {
                        same = false;
                    }
                    j = j + 1;
                }
                proof {
                    let len = b@.len() as int;
                    if e.name@.take(len) == b@ {
                        assert forall|t: int| 0 <= t < len implies e.name@[t] == b@[t] by {
                            assert(e.name@.take(len)[t] == b@[t]);
                        }
                    }
                    if same {
                        assert(e.name@.take(len) =~= b@);
                    }
                }
                if same {
                    return Some(k);
                }
            }
            k = k + 1;
        }
        None
    }

    /// Records `data` as the contents of file `name`: takes the first run of free data
    /// sectors long enough for it and sets the file's start and size. Returns the first
    /// sector and the blocks to write from it on, in order (the last one zero-padded);
    /// `None`, with nothing changed, when no file has that name or no run is long enough.
    pub fn write(&mut self, name: &str, data: &[u8]) -> (r: Option<(u64, Vec<Vec<u8>>)>)
        requires
            data@.len() + BLOCK - 1 <= usize::MAX,
        ensures
            match write_spec(old(self)@, name.spec_bytes(), data@) {
                None => r is None && final(self)@ == old(self)@,
                Some((fs, start)) => r matches Some((s, blocks)) && s == start && final(self)@ == fs
                    && blocks@.len() == sectors_for(data@.len())
                    && forall|i: int| 0 <= i < blocks@.len() ==> #[trigger] blocks@[i]@ == block_of(data@, i),
            },
    {
        let idx = match self.find_inode(name) {
            Some(i) => i,
            None => return None,
        };
        let sectors = (data.len() + (BLOCK - 1)) / BLOCK;
        let start = match self.alloc_sectors(sectors) {
            Some(s) => s,
            None => return None,
        };
        proof {
            lemma_find_from_bound(old(self)@.inodes, name.spec_bytes(), 0);
        }
        let mut e = self.inodes[idx];
        e.start = start;
        e.size = data.len();
        self.inodes[idx] = e;
        proof {
            let want = old(self)@.inodes.update(
                idx as int,
                InodeView { start, size: data@.len() as usize, ..old(self)@.inodes[idx as int] },
            );
            assert(self@.inodes =~= want);
        }
        let mut blocks: Vec<Vec<u8>> = Vec::new();
        let mut i: usize = 0;
        while i < sectors
            invariant
                i <= sectors,
                sectors == sectors_for(data@.len()),
                data@.len() + BLOCK - 1 <= usize::MAX,
                blocks@.len() == i,
                forall|j: int| 0 <= j < i ==> #[trigger] blocks@[j]@ == block_of(data@, j),
            decreases sectors - i,
        {
            proof {
                assert(i * 512 < data@.len()) by (nonlinear_arith)
                    requires
                        i < sectors,
                        sectors == (data@.len() + 511) / 512,
                ;
            }
            let off = i * BLOCK;
            let len = if data.len() - off < BLOCK { data.len() - off } else { BLOCK };
            let mut buf: Vec<u8> = vec![0u8; BLOCK];
            copy_to_vec(&mut buf, 0, data, off, len);
            assert(buf@ =~= block_of(data@, i as int));
            blocks.push(buf);
            i = i + 1;
        }
        Some((start, blocks))
    }

    /// The first sector and the size of file `name`: where the sectors that `read` needs
    /// lie. `None` when no file has that name.
    pub fn extent(&self, name: &str) -> (r: Option<(u64, usize)>)
        ensures
            r == match find_from(self@.inodes, name.spec_bytes(), 0) {
                None => None,
                Some(i) => Some((self@.inodes[i as int].start, self@.inodes[i as int].size)),
            },
    {
        match self.find_inode(name) {
            Some(i) => {
                proof {
                    lemma_find_from_bound(self@.inodes, name.spec_bytes(), 0);
                }
                Some((self.inodes[i].start, self.inodes[i].size))
            },
            None => None,
        }
    }

    /// Copies file `name` into `buf`, `sectors` holding the contents of the file's sectors
    /// (from its first on, BLOCK bytes each) as the disk returned them: sector by sector,
    /// as many of the file's bytes as fit, stopping once `buf` is full. Returns the number of
    /// bytes copied; `None` when no file has that name, or when `sectors` ends before the
    /// copy does (the disk failed on the next sector), the bytes copied so far staying.
    pub fn read(&self, name: &str, buf: &mut [u8], sectors: &[Vec<u8>]) -> (r: Option<usize>)
        requires
            forall|i: int| 0 <= i < sectors@.len() ==> #[trigger] sectors@[i]@.len() == BLOCK,
            find_from(self@.inodes, name.spec_bytes(), 0) matches Some(i) ==> self@.inodes[i as int].size + BLOCK - 1
                <= usize::MAX,
        ensures
            (r, final(buf)@) == read_spec(self@, name.spec_bytes(), old(buf)@, sectors@.map_values(|v: Vec<u8>| v@)),
    {
        let idx = match self.find_inode(name) {
            Some(i) => i,
            None => return None,
        };
        proof {
            lemma_find_from_bound(self@.inodes, name.spec_bytes(), 0);
        }
        let size = self.inodes[idx].size;
        let nsec = (size + (BLOCK - 1)) / BLOCK;
        let ghost secs = sectors@.map_values(|v: Vec<u8>| v@);
        let ghost b0 = buf@;
        let room = buf.len();
        assert(self@.inodes[idx as int].size == size);
        let mut total: usize = 0;
        let mut i: usize = 0;
        proof {
            assert(buf@ =~= fill_from(b0, secs, 0));
        }
        while i < nsec
            invariant
                nsec == sectors_for(size as nat),
                find_from(self@.inodes, name.spec_bytes(), 0) == Some(idx),
                self@.inodes[idx as int].size == size,
                b0 == old(buf)@,
                room == buf@.len(),
                b0.len() == room,
                secs == sectors@.map_values(|v: Vec<u8>| v@),
                forall|j: int| 0 <= j < sectors@.len() ==> #[trigger] sectors@[j]@.len() == BLOCK,
                i <= nsec,
                i <= sectors@.len(),
                total == min3(size as nat, room as nat, (512 * i) as nat),
                buf@ == fill_from(b0, secs, total as nat),
                i == 0 || total < room,
            decreases nsec - i,
        {
            if i >= sectors.len() {
                proof {
                    lemma_read_progress(size as nat, room as nat, i as nat);
                }
                return None;
            }
            let rest = size - total;
            let space = room - total;
            let cl = if rest < BLOCK {
                if rest < space { rest } else { space }
            } else if BLOCK < space {
                BLOCK
            } else {
                space
            };
            let ghost before = buf@;
            copy_to_slice(buf, total, &sectors[i], 0, cl);
            proof {
                assert forall|t: int| 0 <= t < room implies #[trigger] buf@[t] == fill_from(b0, secs, (total + cl) as nat)[t] by {
                    if total <= t < total + cl {
                        assert(total == 512 * i);
                        assert(t / 512 == i && t % 512 == t - total) by (nonlinear_arith)
                            requires
                                total == 512 * i,
                                total <= t < total + cl,
                                cl <= 512,
                        ;
                        assert(secs[i as int] == sectors@[i as int]@);
                    }
                }
                assert(buf@ =~= fill_from(b0, secs, (total + cl) as nat));
            }
            total = total + cl;
            i = i + 1;
            if total >= room {
                proof {
                    lemma_read_progress(size as nat, room as nat, i as nat);
                    assert(512 * i <= 512 * sectors@.len());
                }
                return Some(total);
            }
        }
        proof {
            lemma_read_progress(size as nat, room as nat, i as nat);
            assert(512 * i <= 512 * sectors@.len());
        }
        Some(total)
    }

    /// Adds an empty file entry of the given size named `name` (cut to NAMELEN - 1 bytes);
    /// fails when a file of that name exists or the table is full.
    pub fn create(&mut self, name: &str, size: usize) -> (ok: bool)
        ensures
            ok == (find_from(old(self)@.inodes, name.spec_bytes(), 0) is None
                && free_slot_from(old(self)@.inodes, 0) is Some),
            final(self)@.sb == old(self)@.sb,
            final(self)@.inodes == if ok {
                old(self)@.inodes.update(
                    free_slot_from(old(self)@.inodes, 0)->0 as int,
                    InodeView { name: stored_name(name.spec_bytes()), size, start: 0, used: true },
                )
            } else {
                old(self)@.inodes
            },
    {
        if self.find_inode(name).is_some() {
            return false;
        }
        let mut slot: usize = 0;
        while slot < MAX_FILES && self.inodes[slot].used
            invariant
                slot <= MAX_FILES,
                self@ == old(self)@,
                self@.inodes.len() == MAX_FILES,
                free_slot_from(self@.inodes, slot as nat) == free_slot_from(self@.inodes, 0),
            decreases MAX_FILES - slot,
        {
            slot = slot + 1;
        }
        if slot == MAX_FILES {
            return false;
        }
        let b = name.as_bytes();
        let nlen = if b.len() < NAMELEN - 1 { b.len() } else { NAMELEN - 1 };
        let mut buf = [0u8; 28];
        let mut j: usize = 0;
        while j < nlen
            invariant
                j <= nlen <= NAMELEN - 1,
                nlen <= b@.len(),
                b@ == name.spec_bytes(),
                forall|t: int| 0 <= t < NAMELEN ==> #[trigger] buf@[t] == if t < j { b@[t] } else { 0u8 },
            decreases nlen - j,
        {
            buf[j] = b[j];
            j = j + 1;
        }
        self.inodes[slot] = Inode { name: buf, size, start: 0, used: true };
        proof {
            assert(buf@ =~= stored_name(name.spec_bytes()));
            assert(self@.inodes =~= old(self)@.inodes.update(
                slot as int,
                InodeView { name: stored_name(name.spec_bytes()), size, start: 0, used: true },
            ));
            assert(self@.sb =~= old(self)@.sb);
        }
        true
    }
}

} // verus!
