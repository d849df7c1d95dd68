use vstd::prelude::*;
use vstd::slice::slice_subrange;

verus! {

pub const DRAM_BASE: u64 = 0x8000_0000;
/// 128 MiB of DRAM.
pub const DRAM_SIZE: u64 = 0x800_0000;

/// Little-endian value of two bytes.
pub open spec fn le16(b0: u8, b1: u8) -> u16 {
    (b0 as u16) | ((b1 as u16) << 8u16)
}

/// Little-endian value of four bytes.
pub open spec fn le32(b0: u8, b1: u8, b2: u8, b3: u8) -> u32 {
    (b0 as u32) | ((b1 as u32) << 8u32) | ((b2 as u32) << 16u32) | ((b3 as u32) << 24u32)
}

/// Little-endian value of eight bytes.
pub open spec fn le64(b0: u8, b1: u8, b2: u8, b3: u8, b4: u8, b5: u8, b6: u8, b7: u8) -> u64 {
    (le32(b0, b1, b2, b3) as u64) | ((le32(b4, b5, b6, b7) as u64) << 32u64)
}

/// Whether the `n` bytes starting at physical address `addr` all lie in DRAM.
pub open spec fn dram_fits(addr: u64, n: int) -> bool {
    DRAM_BASE <= addr && addr + n <= DRAM_BASE + DRAM_SIZE
}

/// The offset of `addr` in the DRAM array.
pub open spec fn dram_off(addr: u64) -> int {
    addr - DRAM_BASE
}

/// The DRAM contents, as bytes, from which reads are answered.
pub open spec fn mem_read8(s: Seq<u8>, addr: u64) -> Option<u8> {
    if dram_fits(addr, 1) { Some(s[dram_off(addr)]) } else { None }
}

pub open spec fn mem_read16(s: Seq<u8>, addr: u64) -> Option<u16> {
    let i = dram_off(addr);
    if dram_fits(addr, 2) { Some(le16(s[i], s[i + 1])) } else { None }
}

pub open spec fn mem_read32(s: Seq<u8>, addr: u64) -> Option<u32> {
    let i = dram_off(addr);
    if dram_fits(addr, 4) { Some(le32(s[i], s[i + 1], s[i + 2], s[i + 3])) } else { None }
}

pub open spec fn mem_read64(s: Seq<u8>, addr: u64) -> Option<u64> {
    let i = dram_off(addr);
    if dram_fits(addr, 8) {
        Some(le64(s[i], s[i + 1], s[i + 2], s[i + 3], s[i + 4], s[i + 5], s[i + 6], s[i + 7]))
    } else {
        None
    }
}

/// `s` with the little-endian bytes of the low `n` bytes of `v` stored at offset `i`.
pub open spec fn store_le(s: Seq<u8>, i: int, v: u64, n: nat) -> Seq<u8>
    decreases n,
{
    if n == 0 {
        s
    } else {
        store_le(s.update(i, v as u8), i + 1, v >> 8u64, (n - 1) as nat)
    }
}

/// The DRAM contents after storing the low `n` bytes of `v` at `addr`; a store that does
/// not fit in DRAM changes nothing.
pub open spec fn mem_write(s: Seq<u8>, addr: u64, v: u64, n: nat) -> Seq<u8> {
    if dram_fits(addr, n as int) { store_le(s, dram_off(addr), v, n) } else { s }
}

/// The DRAM contents with the `n` bytes from `addr` on cleared; a range that does not fit
/// in DRAM changes nothing.
pub open spec fn mem_zero(s: Seq<u8>, addr: u64, n: nat) -> Seq<u8> {
    if dram_fits(addr, n as int) {
        Seq::new(s.len(), |j: int| if dram_off(addr) <= j < dram_off(addr) + n { 0u8 } else { s[j] })
    } else {
        s
    }
}

/// The DRAM image holding `bytes` at its start and zeros after them, cut to the DRAM size.
pub open spec fn dram_image(bytes: Seq<u8>) -> Seq<u8> {
    Seq::new(DRAM_SIZE as nat, |i: int| if i < bytes.len() { bytes[i] } else { 0u8 })
}

/// The bytes of `v`, least significant first, reassemble to `v`.
pub proof fn lemma_le_roundtrip(v: u64)
    ensures
        le16(v as u8, (v >> 8u64) as u8) == v as u16,
        le32(v as u8, (v >> 8u64) as u8, ((v >> 8u64) >> 8u64) as u8, (((v >> 8u64) >> 8u64) >> 8u64) as u8)
            == v as u32,
        le64(
            v as u8,
            (v >> 8u64) as u8,
            ((v >> 8u64) >> 8u64) as u8,
            (((v >> 8u64) >> 8u64) >> 8u64) as u8,
            ((((v >> 8u64) >> 8u64) >> 8u64) >> 8u64) as u8,
            (((((v >> 8u64) >> 8u64) >> 8u64) >> 8u64) >> 8u64) as u8,
            ((((((v >> 8u64) >> 8u64) >> 8u64) >> 8u64) >> 8u64) >> 8u64) as u8,
            (((((((v >> 8u64) >> 8u64) >> 8u64) >> 8u64) >> 8u64) >> 8u64) >> 8u64) as u8,
        ) == v,
{
    assert((le16(v as u8, (v >> 8u64) as u8) == v as u16) &&
        (le32(v as u8, (v >> 8u64) as u8, ((v >> 8u64) >> 8u64) as u8, (((v >> 8u64) >> 8u64) >> 8u64) as u8) == v as u32) &&
        (le64( v as u8, (v >> 8u64) as u8, ((v >> 8u64) >> 8u64) as u8, (((v >> 8u64) >> 8u64) >> 8u64) as u8, ((((v >> 8u64) >> 8u64) >> 8u64) >> 8u64) as u8, (((((v >> 8u64) >> 8u64) >> 8u64) >> 8u64) >> 8u64) as u8, ((((((v >> 8u64) >> 8u64) >> 8u64) >> 8u64) >> 8u64) >> 8u64) as u8, (((((((v >> 8u64) >> 8u64) >> 8u64) >> 8u64) >> 8u64) >> 8u64) >> 8u64) as u8, ) == v)) by (bit_vector);
}

/// Byte `k` of `v`, least significant first, as `store_le` produces it.
pub open spec fn byte_of(v: u64, k: nat) -> u8
    decreases k,
{
    if k == 0 { v as u8 } else { byte_of(v >> 8u64, (k - 1) as nat) }
}

/// `store_le` keeps the length, puts byte `k` of `v` at `i + k`, and leaves other bytes alone.
pub proof fn lemma_store_le(s: Seq<u8>, i: int, v: u64, n: nat)
    requires
        0 <= i,
        i + n <= s.len(),
    ensures
        store_le(s, i, v, n).len() == s.len(),
        forall|k: int| 0 <= k < n ==> #[trigger] store_le(s, i, v, n)[i + k] == byte_of(v, k as nat),
        forall|j: int| 0 <= j < s.len() && !(i <= j < i + n) ==> #[trigger] store_le(s, i, v, n)[j] == s[j],
    decreases n,
{
    if n > 0 {
        let s1 = s.update(i, v as u8);
        lemma_store_le(s1, i + 1, v >> 8u64, (n - 1) as nat);
        assert forall|k: int| 0 <= k < n implies #[trigger] store_le(s, i, v, n)[i + k] == byte_of(v, k as nat) by {
            if k > 0 {
                assert(store_le(s1, i + 1, v >> 8u64, (n - 1) as nat)[(i + 1) + (k - 1)] == byte_of(v >> 8u64, (k - 1) as nat));
            }
        }
    }
}

/// A DRAM store of `n` bytes followed by a load of the same size at the same address gives
/// back the stored value; bytes outside the store keep their value.
pub proof fn lemma_mem_write_read(s: Seq<u8>, addr: u64, v: u64)
    requires
        s.len() == DRAM_SIZE,
    ensures
        dram_fits(addr, 1) ==> mem_read8(mem_write(s, addr, v, 1), addr) == Some(v as u8),
        dram_fits(addr, 2) ==> mem_read16(mem_write(s, addr, v, 2), addr) == Some(v as u16),
        dram_fits(addr, 4) ==> mem_read32(mem_write(s, addr, v, 4), addr) == Some(v as u32),
        dram_fits(addr, 8) ==> mem_read64(mem_write(s, addr, v, 8), addr) == Some(v),
        forall|n: nat, j: int| 0 <= j < s.len() && !(dram_off(addr) <= j < dram_off(addr) + n)
            ==> #[trigger] mem_write(s, addr, v, n)[j] == s[j],
        forall|n: nat| #[trigger] mem_write(s, addr, v, n).len() == s.len(),
{
    lemma_le_roundtrip(v);
    let i = dram_off(addr);
    assert forall|n: nat| #[trigger] mem_write(s, addr, v, n).len() == s.len() by {
        if dram_fits(addr, n as int) {
            lemma_store_le(s, i, v, n);
        }
    }
    assert forall|n: nat, j: int| 0 <= j < s.len() && !(dram_off(addr) <= j < dram_off(addr) + n)
        implies #[trigger] mem_write(s, addr, v, n)[j] == s[j] by {
        if dram_fits(addr, n as int) {
            lemma_store_le(s, i, v, n);
        }
    }
    reveal_with_fuel(byte_of, 8);
    if dram_fits(addr, 8) {
        lemma_store_le(s, i, v, 8);
        let t = mem_write(s, addr, v, 8);
        assert(t[i + 0] == byte_of(v, 0));
        assert(t[i + 1] == byte_of(v, 1));
        assert(t[i + 2] == byte_of(v, 2));
        assert(t[i + 3] == byte_of(v, 3));
        assert(t[i + 4] == byte_of(v, 4));
        assert(t[i + 5] == byte_of(v, 5));
        assert(t[i + 6] == byte_of(v, 6));
        assert(t[i + 7] == byte_of(v, 7));
    }
    if dram_fits(addr, 4) {
        lemma_store_le(s, i, v, 4);
        let t = mem_write(s, addr, v, 4);
        assert(t[i + 0] == byte_of(v, 0));
        assert(t[i + 1] == byte_of(v, 1));
        assert(t[i + 2] == byte_of(v, 2));
        assert(t[i + 3] == byte_of(v, 3));
    }
    if dram_fits(addr, 2) {
        lemma_store_le(s, i, v, 2);
        let t = mem_write(s, addr, v, 2);
        assert(t[i] == byte_of(v, 0) && t[i + 1] == byte_of(v, 1));
    }
    if dram_fits(addr, 1) {
        lemma_store_le(s, i, v, 1);
        let t = mem_write(s, addr, v, 1);
        assert(t[i] == byte_of(v, 0));
    }
}

/// The little-endian 16-bit value at offset `i` of `d`.
pub open spec fn rd16(d: Seq<u8>, i: int) -> u16 {
    le16(d[i], d[i + 1])
}

pub open spec fn rd32(d: Seq<u8>, i: int) -> u32 {
    le32(d[i], d[i + 1], d[i + 2], d[i + 3])
}

pub open spec fn rd64(d: Seq<u8>, i: int) -> u64 {
    le64(d[i], d[i + 1], d[i + 2], d[i + 3], d[i + 4], d[i + 5], d[i + 6], d[i + 7])
}

/// The smaller of two lengths.
pub open spec fn min_len(a: nat, b: nat) -> nat {
    if a <= b { a } else { b }
}

/// `dst` with the `n` bytes of `src` at `soff` copied over its bytes at `doff`.
pub open spec fn copy_bytes(dst: Seq<u8>, doff: int, src: Seq<u8>, soff: int, n: int) -> Seq<u8> {
    Seq::new(dst.len(), |i: int| if doff <= i < doff + n { src[soff + (i - doff)] } else { dst[i] })
}

/// The little-endian 16-bit value at offset `i` of `d`.
pub fn rd16_at(d: &[u8], i: usize) -> (r: u16)
    requires
        i + 2 <= d@.len(),
    ensures
        r == rd16(d@, i as int),
{
    (d[i] as u16) | ((d[i + 1] as u16) << 8)
}

/// The little-endian 32-bit value at offset `i` of `d`.
pub fn rd32_at(d: &[u8], i: usize) -> (r: u32)
    requires
        i + 4 <= d@.len(),
    ensures
        r == rd32(d@, i as int),
{
    (d[i] as u32) | ((d[i + 1] as u32) << 8) | ((d[i + 2] as u32) << 16) | ((d[i + 3] as u32) << 24)
}

/// The little-endian 64-bit value at offset `i` of `d`.
pub fn rd64_at(d: &[u8], i: usize) -> (r: u64)
    requires
        i + 8 <= d@.len(),
    ensures
        r == rd64(d@, i as int),
{
    let lo = (d[i] as u32) | ((d[i + 1] as u32) << 8) | ((d[i + 2] as u32) << 16) | ((d[i + 3] as u32) << 24);
    let hi = (d[i + 4] as u32) | ((d[i + 5] as u32) << 8) | ((d[i + 6] as u32) << 16) | ((d[i + 7] as u32) << 24);
    (lo as u64) | ((hi as u64) << 32)
}

/// Copies `n` bytes of `src` at `soff` over the bytes of `dst` at `doff`.
pub fn copy_to_slice(dst: &mut [u8], doff: usize, src: &Vec<u8>, soff: usize, n: usize)
    requires
        doff + n <= old(dst)@.len(),
        soff + n <= src@.len(),
    ensures
        final(dst)@ == copy_bytes(old(dst)@, doff as int, src@, soff as int, n as int),
        final(dst)@.len() == old(dst)@.len(),
{
    let dst_len = dst.len();
    let src_len = src.len();
    let mut k: usize = 0;
    while k < n
        invariant
            k <= n,
            dst@.len() == dst_len,
            src@.len() == src_len,
            doff + n <= dst@.len(),
            soff + n <= src@.len(),
            dst@ == copy_bytes(old(dst)@, doff as int, src@, soff as int, k as int),
        decreases n - k,
    {
        dst[doff + k] = src[soff + k];
        k = k + 1;
        assert(dst@ =~= copy_bytes(old(dst)@, doff as int, src@, soff as int, k as int));
    }
}

/// Copies `n` bytes of `src` at `soff` over the bytes of `dst` at `doff`.
pub fn copy_to_vec(dst: &mut Vec<u8>, doff: usize, src: &[u8], soff: usize, n: usize)
    requires
        doff + n <= old(dst)@.len(),
        soff + n <= src@.len(),
    ensures
        final(dst)@ == copy_bytes(old(dst)@, doff as int, src@, soff as int, n as int),
        final(dst)@.len() == old(dst)@.len(),
{
    let dst_len = dst.len();
    let src_len = src.len();
    let mut k: usize = 0;
    while k < n
        invariant
            k <= n,
            dst@.len() == dst_len,
            src@.len() == src_len,
            doff + n <= dst@.len(),
            soff + n <= src@.len(),
            dst@ == copy_bytes(old(dst)@, doff as int, src@, soff as int, k as int),
        decreases n - k,
    {
        dst.set(doff + k, src[soff + k]);
        k = k + 1;
        assert(dst@ =~= copy_bytes(old(dst)@, doff as int, src@, soff as int, k as int));
    }
}

/// Flat DRAM.
pub struct Memory {
    data: Vec<u8>,
}

impl View for Memory {
    type V = Seq<u8>;

    closed spec fn view(&self) -> Seq<u8> {
        self.data@
    }
}

impl Memory {
    /// The memory holds exactly `DRAM_SIZE` bytes.
    pub open spec fn wf(&self) -> bool {
        self@.len() == DRAM_SIZE
    }

    /// Zero-filled DRAM.
    pub fn new() -> (m: Self)
        ensures
            m.wf(),
            m@ == dram_image(Seq::empty()),
    {
        let data = vec![0u8; DRAM_SIZE as usize];
        let m = Self { data };
        assert(m@ =~= dram_image(Seq::empty()));
        m
    }

    /// DRAM holding `bytes` at its base (cut to the DRAM size) and zeros after them.
    pub fn load_binary(bytes: &[u8]) -> (m: Self)
        ensures
            m.wf(),
            m@ == dram_image(bytes@),
    {
        let mut m = Self::new();
        let len = if bytes.len() < DRAM_SIZE as usize { bytes.len() } else { DRAM_SIZE as usize };
        let mut i: usize = 0;
        while i < len
            invariant
                len <= bytes.len(),
                len <= DRAM_SIZE,
                i <= len,
                m.wf(),
                forall|k: int| 0 <= k < i ==> m@[k] == bytes@[k],
                forall|k: int| i <= k < DRAM_SIZE ==> m@[k] == 0u8,
            decreases len - i,
        {
            m.data.set(i, bytes[i]);
            i = i + 1;
        }
        assert(m@ =~= dram_image(bytes@));
        m
    }

    /// DRAM made from `data`, cut or zero-padded to the DRAM size.
    pub fn into_dram(data: Vec<u8>) -> (m: Self)
        ensures
            m.wf(),
            m@ == dram_image(data@),
    {
        let mut data = data;
        let ghost d0 = data@;
        data.resize(DRAM_SIZE as usize, 0u8);
        let m = Self { data };
        assert forall|k: int| 0 <= k < DRAM_SIZE implies m@[k] == dram_image(d0)[k] by {
            if d0.len() > DRAM_SIZE {
                assert(m@[k] == d0.subrange(0, DRAM_SIZE as int)[k]);
            } else if k < d0.len() {
                assert(m@.subrange(0, d0.len() as int)[k] == d0[k]);
            }
        }
        assert(m@ =~= dram_image(d0));
        m
    }

    #[inline(always)]
    fn off(&self, addr: u64, n: u64) -> (r: Option<usize>)
        requires
            self.wf(),
            1 <= n <= 8,
        ensures
            r is Some <==> dram_fits(addr, n as int),
            r matches Some(i) ==> i == dram_off(addr) && i + n <= self@.len(),
    {
        if addr >= DRAM_BASE && addr - DRAM_BASE <= DRAM_SIZE - n {
            Some((addr - DRAM_BASE) as usize)
        } else {
            None
        }
    }

    pub fn read8(&self, addr: u64) -> (r: Option<u8>)
        requires
            self.wf(),
        ensures
            r == mem_read8(self@, addr),
    {
        match self.off(addr, 1) {
            Some(i) => Some(self.data[i]),
            None => None,
        }
    }

    pub fn read16(&self, addr: u64) -> (r: Option<u16>)
        requires
            self.wf(),
        ensures
            r == mem_read16(self@, addr),
    {
        match self.off(addr, 2) {
            Some(i) => Some((self.data[i] as u16) | ((self.data[i + 1] as u16) << 8)),
            None => None,
        }
    }

    pub fn read32(&self, addr: u64) -> (r: Option<u32>)
        requires
            self.wf(),
        ensures
            r == mem_read32(self@, addr),
    {
        match self.off(addr, 4) {
            Some(i) => Some(
                (self.data[i] as u32) | ((self.data[i + 1] as u32) << 8) | ((self.data[i + 2] as u32) << 16)
                    | ((self.data[i + 3] as u32) << 24),
            ),
            None => None,
        }
    }

    pub fn read64(&self, addr: u64) -> (r: Option<u64>)
        requires
            self.wf(),
        ensures
            r == mem_read64(self@, addr),
    {
        match self.off(addr, 8) {
            Some(i) => {
                let lo = (self.data[i] as u32) | ((self.data[i + 1] as u32) << 8) | ((self.data[i + 2] as u32) << 16)
                    | ((self.data[i + 3] as u32) << 24);
                let hi = (self.data[i + 4] as u32) | ((self.data[i + 5] as u32) << 8)
                    | ((self.data[i + 6] as u32) << 16) | ((self.data[i + 7] as u32) << 24);
                Some((lo as u64) | ((hi as u64) << 32))
            },
            None => None,
        }
    }

    /// Stores the low `n` bytes of `v` at offset `i`, least significant first.
    fn store(&mut self, i: usize, v: u64, n: u64)
        requires
            old(self).wf(),
            1 <= n <= 8,
            i + n <= old(self)@.len(),
        ensures
            final(self).wf(),
            final(self)@ == store_le(old(self)@, i as int, v, n as nat),
        decreases n,
    {
        self.data.set(i, v as u8);
        if n > 1 {
            self.store(i + 1, v >> 8, n - 1);
        } else {
            assert(store_le(self@, i + 1, v >> 8u64, 0) == self@);
        }
    }

    pub fn write8(&mut self, addr: u64, v: u8)
        requires
            old(self).wf(),
        ensures
            final(self).wf(),
            final(self)@ == mem_write(old(self)@, addr, v as u64, 1),
    {
        if let Some(i) = self.off(addr, 1) {
            self.store(i, v as u64, 1);
            assert((v as u64) as u8 == v) by (bit_vector);
        }
    }

    pub fn write16(&mut self, addr: u64, v: u16)
        requires
            old(self).wf(),
        ensures
            final(self).wf(),
            final(self)@ == mem_write(old(self)@, addr, v as u64, 2),
    {
        if let Some(i) = self.off(addr, 2) {
            self.store(i, v as u64, 2);
        }
    }

    pub fn write32(&mut self, addr: u64, v: u32)
        requires
            old(self).wf(),
        ensures
            final(self).wf(),
            final(self)@ == mem_write(old(self)@, addr, v as u64, 4),
    {
        if let Some(i) = self.off(addr, 4) {
            self.store(i, v as u64, 4);
        }
    }

    pub fn write64(&mut self, addr: u64, v: u64)
        requires
            old(self).wf(),
        ensures
            final(self).wf(),
            final(self)@ == mem_write(old(self)@, addr, v, 8),
    {
        if let Some(i) = self.off(addr, 8) {
            self.store(i, v, 8);
        }
    }

    /// Clears the `len` bytes from `addr` on, where they all lie in DRAM.
    pub fn zero(&mut self, addr: u64, len: usize)
        requires
            old(self).wf(),
        ensures
            final(self).wf(),
            final(self)@ == mem_zero(old(self)@, addr, len as nat),
    {
        if addr >= DRAM_BASE && addr - DRAM_BASE <= DRAM_SIZE && len as u64 <= DRAM_SIZE - (addr - DRAM_BASE) {
            let start = (addr - DRAM_BASE) as usize;
            let mut k: usize = 0;
            while k < len
                invariant
                    self.wf(),
                    start + len <= DRAM_SIZE,
                    k <= len,
                    forall|j: int| 0 <= j < DRAM_SIZE ==> #[trigger] self@[j] == (if start <= j < start + k {
                        0u8
                    } else {
                        old(self)@[j]
                    }),
                decreases len - k,
            {
                self.data.set(start + k, 0u8);
                k = k + 1;
            }
            assert(self@ =~= mem_zero(old(self)@, addr, len as nat));
        }
    }

    /// Copies `src` into DRAM from offset `off` on, as far as DRAM reaches.
    pub fn write_bytes(&mut self, off: usize, src: &[u8])
        requires
            old(self).wf(),
            off <= DRAM_SIZE,
        ensures
            final(self).wf(),
            final(self)@ == copy_bytes(old(self)@, off as int, src@, 0, min_len(src@.len(), (DRAM_SIZE - off) as nat) as int),
    {
        let room = self.data.len() - off;
        let n = if src.len() < room { src.len() } else { room };
        copy_to_vec(&mut self.data, off, src, 0, n);
    }

    /// The `len` bytes at `addr`, if they all lie in DRAM.
    pub fn slice(&self, addr: u64, len: usize) -> (r: Option<&[u8]>)
        requires
            self.wf(),
        ensures
            r is Some <==> (DRAM_BASE <= addr < DRAM_BASE + DRAM_SIZE && dram_off(addr) + len <= DRAM_SIZE),
            r matches Some(s) ==> s@ == self@.subrange(dram_off(addr), dram_off(addr) + len),
    {
        if addr >= DRAM_BASE && addr - DRAM_BASE < DRAM_SIZE {
            let i = (addr - DRAM_BASE) as usize;
            if len <= self.data.len() - i {
                return Some(slice_subrange(self.data.as_slice(), i, i + len));
            }
        }
        None
    }
}

} // verus!
