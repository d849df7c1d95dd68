//! A minimal flattened-device-tree (DTB) writer and the tree that describes this machine.
use vstd::prelude::*;
use vstd::string::{is_ascii_spec_bytes, StringSliceAdditionalSpecFns};

verus! {

pub const FDT_MAGIC: u32 = 0xD00D_FEED;
pub const FDT_VERSION: u32 = 17;
pub const FDT_COMPAT: u32 = 16;

// Structure-block tokens.
pub const FDT_BEGIN_NODE: u32 = 0x0000_0001;
pub const FDT_END_NODE: u32 = 0x0000_0002;
pub const FDT_PROP: u32 = 0x0000_0003;
pub const FDT_END: u32 = 0x0000_0009;

/// Size of the header (40 bytes) plus the empty memory-reservation block (16 bytes).
pub const FDT_HEADER_AND_RSV: u32 = 56;

/// The big-endian bytes of `v`.
pub open spec fn be32(v: u32) -> Seq<u8> {
    seq![(v >> 24u32) as u8, (v >> 16u32) as u8, (v >> 8u32) as u8, v as u8]
}

/// The big-endian bytes of `v`.
pub open spec fn be64(v: u64) -> Seq<u8> {
    be32((v >> 32u64) as u32) + be32(v as u32)
}

/// Number of zero bytes that pad a block of `n` bytes to a multiple of four.
pub open spec fn pad_len(n: nat) -> nat {
    ((4 - n % 4) % 4) as nat
}

/// `s` padded with zeros to a multiple of four bytes.
pub open spec fn pad4(s: Seq<u8>) -> Seq<u8> {
    s + Seq::new(pad_len(s.len()), |i: int| 0u8)
}

/// The big-endian encoding of a list of 32-bit cells.
pub open spec fn cells(vals: Seq<u32>) -> Seq<u8>
    decreases vals.len(),
{
    if vals.len() == 0 {
        Seq::empty()
    } else {
        cells(vals.drop_last()) + be32(vals.last())
    }
}

/// Each cell takes four bytes.
proof fn lemma_cells_len(vals: Seq<u32>)
    ensures
        cells(vals).len() == 4 * vals.len(),
    decreases vals.len(),
{
    if vals.len() > 0 {
        lemma_cells_len(vals.drop_last());
    }
}

/// A device tree under construction: the structure block (without its final FDT_END token)
/// and the strings block.
#[verifier::ext_equal]
pub struct FdtView {
    pub structure: Seq<u8>,
    pub strings: Seq<u8>,
}

impl FdtView {
    pub open spec fn empty() -> FdtView {
        FdtView { structure: Seq::empty(), strings: Seq::empty() }
    }

    /// Opening a node: the token, the NUL-terminated name, padding.
    #[verifier::opaque]
    pub open spec fn begin_node(self, name: Seq<u8>) -> FdtView {
        FdtView { structure: pad4(self.structure + be32(FDT_BEGIN_NODE) + name + seq![0u8]), ..self }
    }

    /// Closing the current node.
    #[verifier::opaque]
    pub open spec fn end_node(self) -> FdtView {
        FdtView { structure: self.structure + be32(FDT_END_NODE), ..self }
    }

    /// A property: the token, the value's length, the offset of the name in the strings block,
    /// the value, padding; the NUL-terminated name is appended to the strings block.
    #[verifier::opaque]
    pub open spec fn prop(self, name: Seq<u8>, value: Seq<u8>) -> FdtView {
        FdtView {
            structure: pad4(
                self.structure + be32(FDT_PROP) + be32(value.len() as u32) + be32(self.strings.len() as u32)
                    + value,
            ),
            strings: self.strings + name + seq![0u8],
        }
    }

    pub open spec fn prop_u32(self, name: Seq<u8>, v: u32) -> FdtView {
        self.prop(name, be32(v))
    }

    pub open spec fn prop_cells(self, name: Seq<u8>, vals: Seq<u32>) -> FdtView {
        self.prop(name, cells(vals))
    }

    pub open spec fn prop_empty(self, name: Seq<u8>) -> FdtView {
        self.prop(name, Seq::empty())
    }

    /// The whole structure block, closed by FDT_END.
    pub open spec fn structure_block(self) -> Seq<u8> {
        self.structure + be32(FDT_END)
    }

    /// Whether the finished blob's sizes fit the header's 32-bit fields.
    pub open spec fn fits(self) -> bool {
        FDT_HEADER_AND_RSV + self.structure.len() + 4 + self.strings.len() <= u32::MAX
    }
}

/// The 40-byte DTB header for blocks of the given sizes.
pub open spec fn fdt_header(struct_len: nat, strings_len: nat) -> Seq<u8> {
    be32(FDT_MAGIC) + be32((FDT_HEADER_AND_RSV + struct_len + strings_len) as u32) + be32(FDT_HEADER_AND_RSV)
        + be32((FDT_HEADER_AND_RSV + struct_len) as u32) + be32(40) + be32(FDT_VERSION) + be32(FDT_COMPAT)
        + be32(0) + be32(strings_len as u32) + be32(struct_len as u32)
}

/// The DTB blob: header, empty memory-reservation block, structure block, strings block.
pub open spec fn fdt_blob(w: FdtView) -> Seq<u8> {
    fdt_header(w.structure_block().len(), w.strings.len()) + be64(0) + be64(0) + w.structure_block() + w.strings
}

/// The big-endian 32-bit value at offset `i` of `b`.
pub open spec fn be32_at(b: Seq<u8>, i: int) -> u32 {
    ((b[i] as u32) << 24u32) | ((b[i + 1] as u32) << 16u32) | ((b[i + 2] as u32) << 8u32) | (b[i + 3] as u32)
}

/// The root node's properties.
#[verifier::opaque]
pub open spec fn root_props(w: FdtView) -> FdtView {
    w.begin_node("".spec_bytes())
        .prop_cells("#address-cells".spec_bytes(), seq![2u32])
        .prop_cells("#size-cells".spec_bytes(), seq![2u32])
        .prop("compatible".spec_bytes(), "riscv-virtio".spec_bytes())
        .prop("model".spec_bytes(), "riscv-vm".spec_bytes())
}

/// The `chosen` node: kernel command line and console.
#[verifier::opaque]
pub open spec fn chosen_node(w: FdtView) -> FdtView {
    w.begin_node("chosen".spec_bytes())
        .prop("bootargs".spec_bytes(), "console=ttyS0 earlycon=uart8250,mmio,0x10000000".spec_bytes())
        .prop("stdout-path".spec_bytes(), "/soc/uart@10000000".spec_bytes())
        .end_node()
}

/// The memory node: 128 MiB at 0x8000_0000.
#[verifier::opaque]
pub open spec fn memory_node(w: FdtView) -> FdtView {
    w.begin_node("memory@80000000".spec_bytes())
        .prop("device_type".spec_bytes(), "memory".spec_bytes())
        .prop_cells("reg".spec_bytes(), seq![0u32, 0x8000_0000, 0, 0x0800_0000])
        .end_node()
}

/// The `cpus` node: one RV64 hart with Sv39 and its local interrupt controller.
#[verifier::opaque]
pub open spec fn cpus_node(w: FdtView) -> FdtView {
    w.begin_node("cpus".spec_bytes())
        .prop_cells("#address-cells".spec_bytes(), seq![1u32])
        .prop_cells("#size-cells".spec_bytes(), seq![0u32])
        .prop_u32("timebase-frequency".spec_bytes(), 10_000_000)
        .begin_node("cpu@0".spec_bytes())
        .prop("device_type".spec_bytes(), "cpu".spec_bytes())
        .prop_u32("reg".spec_bytes(), 0)
        .prop("compatible".spec_bytes(), "riscv".spec_bytes())
        .prop("riscv,isa".spec_bytes(), "rv64imafd".spec_bytes())
        .prop("mmu-type".spec_bytes(), "riscv,sv39".spec_bytes())
        .prop_u32("clock-frequency".spec_bytes(), 100_000_000)
        .prop("status".spec_bytes(), "okay".spec_bytes())
        .begin_node("interrupt-controller".spec_bytes())
        .prop_cells("#interrupt-cells".spec_bytes(), seq![1u32])
        .prop_empty("interrupt-controller".spec_bytes())
        .prop("compatible".spec_bytes(), "riscv,cpu-intc".spec_bytes())
        .end_node()
        .end_node()
        .end_node()
}

/// The `soc` bus with the CLINT, the PLIC and the 16550 UART.
#[verifier::opaque]
pub open spec fn soc_node(w: FdtView) -> FdtView {
    w.begin_node("soc".spec_bytes())
        .prop_cells("#address-cells".spec_bytes(), seq![2u32])
        .prop_cells("#size-cells".spec_bytes(), seq![2u32])
        .prop("compatible".spec_bytes(), "simple-bus".spec_bytes())
        .prop_empty("ranges".spec_bytes())
        .begin_node("clint@2000000".spec_bytes())
        .prop("compatible".spec_bytes(), "riscv,clint0".spec_bytes())
        .prop_cells("reg".spec_bytes(), seq![0u32, 0x200_0000, 0, 0x1_0000])
        .prop_cells("interrupts-extended".spec_bytes(), seq![1u32, 3, 1, 7])
        .end_node()
        .begin_node("plic@c000000".spec_bytes())
        .prop("compatible".spec_bytes(), "riscv,plic0".spec_bytes())
        .prop_cells("reg".spec_bytes(), seq![0u32, 0xC00_0000, 0, 0x400_0000])
        .prop_cells("interrupts-extended".spec_bytes(), seq![1u32, 11, 1, 9])
        .prop_u32("riscv,ndev".spec_bytes(), 53)
        .end_node()
        .begin_node("uart@10000000".spec_bytes())
        .prop("compatible".spec_bytes(), "ns16550a".spec_bytes())
        .prop_cells("reg".spec_bytes(), seq![0u32, 0x1000_0000, 0, 0x100])
        .prop_u32("clock-frequency".spec_bytes(), 0x38_4000)
        .prop_u32("interrupt-parent".spec_bytes(), 2)
        .prop_u32("interrupts".spec_bytes(), 10)
        .end_node()
        .end_node()
}

/// The device tree of this machine: 128 MiB of memory at 0x8000_0000, one RV64 hart with its
/// interrupt controller, and on the SoC bus the CLINT, the PLIC and a 16550 UART, which is
/// the console.
pub open spec fn machine_fdt() -> FdtView {
    soc_node(cpus_node(memory_node(chosen_node(root_props(FdtView::empty()))))).end_node()
}

/// Padding adds fewer than four bytes.
proof fn lemma_pad4_len(s: Seq<u8>)
    ensures
        s.len() <= pad4(s).len() < s.len() + 4,
{
}

/// Reading back a big-endian word gives the word.
proof fn lemma_be32_at(b: Seq<u8>, i: int, v: u32)
    requires
        0 <= i,
        i + 4 <= b.len(),
        b[i] == be32(v)[0],
        b[i + 1] == be32(v)[1],
        b[i + 2] == be32(v)[2],
        b[i + 3] == be32(v)[3],
    ensures
        be32_at(b, i) == v,
{
    let (b0, b1, b2, b3) = (b[i], b[i + 1], b[i + 2], b[i + 3]);
    assert(b0 == (v >> 24u32) as u8 && b1 == (v >> 16u32) as u8 && b2 == (v >> 8u32) as u8 && b3 == v as u8
        ==> ((b0 as u32) << 24u32) | ((b1 as u32) << 16u32) | ((b2 as u32) << 8u32) | (b3 as u32) == v)
        by (bit_vector);
}

/// The blob `finish` lays out is a well-formed DTB: the magic number first; totalsize equal
/// to the blob's length; the structure block right after the 40-byte header and the empty
/// 16-byte reservation block, closed by FDT_END; the strings block right after it, ending the
/// blob; and the header's offsets and sizes naming exactly these blocks.
pub proof fn lemma_fdt_layout(w: FdtView)
    requires
        w.fits(),
    ensures
        ({
            let b = fdt_blob(w);
            let sl = w.structure_block().len();
            &&& b.len() == FDT_HEADER_AND_RSV + sl + w.strings.len()
            &&& be32_at(b, 0) == FDT_MAGIC
            &&& be32_at(b, 4) == b.len()
            &&& be32_at(b, 8) == FDT_HEADER_AND_RSV
            &&& be32_at(b, 12) == FDT_HEADER_AND_RSV + sl
            &&& be32_at(b, 16) == 40
            &&& be32_at(b, 20) == FDT_VERSION
            &&& be32_at(b, 32) == w.strings.len()
            &&& be32_at(b, 36) == sl
            &&& b.subrange(FDT_HEADER_AND_RSV as int, FDT_HEADER_AND_RSV + sl) == w.structure_block()
            &&& b.subrange(FDT_HEADER_AND_RSV + sl, b.len() as int) == w.strings
            &&& be32_at(b, FDT_HEADER_AND_RSV + sl - 4) == FDT_END
        }),
{
    let b = fdt_blob(w);
    let sb = w.structure_block();
    let sl = sb.len();
    let n = w.strings.len();
    let h = fdt_header(sl, n);
    assert(h.len() == 40);
    assert(b =~= h + be64(0) + be64(0) + sb + w.strings);
    let total = (FDT_HEADER_AND_RSV + sl + n) as u32;
    lemma_be32_at(b, 0, FDT_MAGIC);
    lemma_be32_at(b, 4, total);
    lemma_be32_at(b, 8, FDT_HEADER_AND_RSV);
    lemma_be32_at(b, 12, (FDT_HEADER_AND_RSV + sl) as u32);
    lemma_be32_at(b, 16, 40);
    lemma_be32_at(b, 20, FDT_VERSION);
    lemma_be32_at(b, 32, n as u32);
    lemma_be32_at(b, 36, sl as u32);
    assert(b.subrange(56, 56 + sl as int) =~= sb);
    assert(b.subrange(56 + sl as int, b.len() as int) =~= w.strings);
    lemma_be32_at(b, 56 + sl - 4, FDT_END);
}

fn u32_to_be(v: u32) -> (r: [u8; 4])
    ensures
        r@ == be32(v),
{
    let r = [(v >> 24) as u8, (v >> 16) as u8, (v >> 8) as u8, v as u8];
    assert(r@ =~= be32(v));
    r
}

fn u64_to_be(v: u64) -> (r: [u8; 8])
    ensures
        r@ == be64(v),
{
    let hi = (v >> 32) as u32;
    let lo = v as u32;
    let r = [
        (hi >> 24) as u8,
        (hi >> 16) as u8,
        (hi >> 8) as u8,
        hi as u8,
        (lo >> 24) as u8,
        (lo >> 16) as u8,
        (lo >> 8) as u8,
        lo as u8,
    ];
    assert(r@ =~= be64(v));
    r
}

/// Appends all of `b` to `v`.
fn append(v: &mut Vec<u8>, b: &[u8])
    ensures
        final(v)@ == old(v)@ + b@,
{
    let mut k: usize = 0;
    while k < b.len()
        invariant
            k <= b@.len(),
            v@ == old(v)@ + b@.subrange(0, k as int),
        decreases b@.len() - k,
    {
        v.push(b[k]);
        k = k + 1;
        assert(v@ =~= old(v)@ + b@.subrange(0, k as int));
    }
    assert(b@.subrange(0, b@.len() as int) =~= b@);
}

/// Builds a DTB: a structure block written token by token and a strings block of property
/// names.
struct FdtWriter {
    buf: Vec<u8>,
    str_off: u32,
    strtab: Vec<u8>,
}

impl View for FdtWriter {
    type V = FdtView;

    closed spec fn view(&self) -> FdtView {
        FdtView { structure: self.buf@, strings: self.strtab@ }
    }
}

impl FdtWriter {
    /// The running string offset is the length of the strings block.
    spec fn wf(&self) -> bool {
        self.str_off == self.strtab@.len()
    }

    fn new() -> (w: Self)
        ensures
            w.wf(),
            w@ == FdtView::empty(),
    {
        Self { buf: Vec::new(), str_off: 0, strtab: Vec::new() }
    }

    fn u32(&mut self, v: u32)
        requires
            old(self).wf(),
        ensures
            final(self).wf(),
            final(self)@ == (FdtView { structure: old(self)@.structure + be32(v), ..old(self)@ }),
    {
        let b = u32_to_be(v);
        append(&mut self.buf, &b);
    }

    fn bytes(&mut self, b: &[u8])
        requires
            old(self).wf(),
        ensures
            final(self).wf(),
            final(self)@ == (FdtView { structure: old(self)@.structure + b@, ..old(self)@ }),
    {
        append(&mut self.buf, b);
    }

    fn align4(&mut self)
        requires
            old(self).wf(),
        ensures
            final(self).wf(),
            final(self)@ == (FdtView { structure: pad4(old(self)@.structure), ..old(self)@ }),
    {
        let ghost start = self.buf@;
        while self.buf.len() % 4 != 0
            invariant
                self.wf(),
                self.strtab@ == old(self).strtab@,
                start == old(self).buf@,
                start.len() <= self.buf@.len() <= start.len() + pad_len(start.len()),
                self.buf@ == start + Seq::new((self.buf@.len() - start.len()) as nat, |i: int| 0u8),
            decreases start.len() + pad_len(start.len()) - self.buf@.len(),
        {
            self.buf.push(0);
            assert(self.buf@ =~= start + Seq::new((self.buf@.len() - start.len()) as nat, |i: int| 0u8));
        }
    }

    fn add_string(&mut self, s: &str) -> (off: u32)
        requires
            old(self).wf(),
            old(self)@.strings.len() + s.spec_bytes().len() + 1 <= u32::MAX,
        ensures
            final(self).wf(),
            off == old(self)@.strings.len(),
            final(self)@ == (FdtView { strings: old(self)@.strings + s.spec_bytes() + seq![0u8], ..old(self)@ }),
    {
        let off = self.str_off;
        append(&mut self.strtab, s.as_bytes());
        self.strtab.push(0);
        self.str_off = self.str_off + s.len() as u32 + 1;
        assert(self.strtab@ =~= old(self)@.strings + s.spec_bytes() + seq![0u8]);
        off
    }

    fn begin_node(&mut self, name: &str)
        requires
            old(self).wf(),
        ensures
            final(self).wf(),
            final(self)@ == old(self)@.begin_node(name.spec_bytes()),
            final(self)@.structure.len() <= old(self)@.structure.len() + 8 + name.spec_bytes().len(),
            final(self)@.strings == old(self)@.strings,
    {
        reveal(FdtView::begin_node);
        self.u32(FDT_BEGIN_NODE);
        self.bytes(name.as_bytes());
        let nul = [0u8];
        assert(nul@ =~= seq![0u8]);
        self.bytes(&nul);
        proof { lemma_pad4_len(self@.structure); }
        self.align4();
    }

    fn end_node(&mut self)
        requires
            old(self).wf(),
        ensures
            final(self).wf(),
            final(self)@ == old(self)@.end_node(),
            final(self)@.structure.len() == old(self)@.structure.len() + 4,
            final(self)@.strings == old(self)@.strings,
    {
        reveal(FdtView::end_node);
        self.u32(FDT_END_NODE);
    }

    fn prop(&mut self, name: &str, val: &[u8])
        requires
            old(self).wf(),
            old(self)@.strings.len() + name.spec_bytes().len() + 1 <= u32::MAX,
        ensures
            final(self).wf(),
            final(self)@ == old(self)@.prop(name.spec_bytes(), val@),
            final(self)@.structure.len() <= old(self)@.structure.len() + 15 + val@.len(),
            final(self)@.strings.len() == old(self)@.strings.len() + name.spec_bytes().len() + 1,
    {
        reveal(FdtView::prop);
        let name_off = self.add_string(name);
        self.u32(FDT_PROP);
        self.u32(val.len() as u32);
        self.u32(name_off);
        self.bytes(val);
        proof { lemma_pad4_len(self@.structure); }
        self.align4();
    }

    fn prop_u32(&mut self, name: &str, v: u32)
        requires
            old(self).wf(),
            old(self)@.strings.len() + name.spec_bytes().len() + 1 <= u32::MAX,
        ensures
            final(self).wf(),
            final(self)@ == old(self)@.prop_u32(name.spec_bytes(), v),
            final(self)@.structure.len() <= old(self)@.structure.len() + 19,
            final(self)@.strings.len() == old(self)@.strings.len() + name.spec_bytes().len() + 1,
    {
        let b = u32_to_be(v);
        self.prop(name, &b);
    }

    fn prop_cells(&mut self, name: &str, vals: &[u32])
        requires
            old(self).wf(),
            old(self)@.strings.len() + name.spec_bytes().len() + 1 <= u32::MAX,
        ensures
            final(self).wf(),
            final(self)@ == old(self)@.prop_cells(name.spec_bytes(), vals@),
            final(self)@.structure.len() <= old(self)@.structure.len() + 15 + 4 * vals@.len(),
            final(self)@.strings.len() == old(self)@.strings.len() + name.spec_bytes().len() + 1,
    {
        let mut data: Vec<u8> = Vec::new();
        let mut k: usize = 0;
        while k < vals.len()
            invariant
                k <= vals@.len(),
                data@ == cells(vals@.subrange(0, k as int)),
            decreases vals@.len() - k,
        {
            let b = u32_to_be(vals[k]);
            append(&mut data, &b);
            assert(vals@.subrange(0, k + 1).drop_last() =~= vals@.subrange(0, k as int));
            k = k + 1;
        }
        assert(vals@.subrange(0, vals@.len() as int) =~= vals@);
        proof { lemma_cells_len(vals@); }
        self.prop(name, data.as_slice());
    }

    fn prop_str(&mut self, name: &str, val: &str)
        requires
            old(self).wf(),
            old(self)@.strings.len() + name.spec_bytes().len() + 1 <= u32::MAX,
        ensures
            final(self).wf(),
            final(self)@ == old(self)@.prop(name.spec_bytes(), val.spec_bytes()),
            final(self)@.structure.len() <= old(self)@.structure.len() + 15 + val.spec_bytes().len(),
            final(self)@.strings.len() == old(self)@.strings.len() + name.spec_bytes().len() + 1,
    {
        self.prop(name, val.as_bytes());
    }

    fn prop_empty(&mut self, name: &str)
        requires
            old(self).wf(),
            old(self)@.strings.len() + name.spec_bytes().len() + 1 <= u32::MAX,
        ensures
            final(self).wf(),
            final(self)@ == old(self)@.prop_empty(name.spec_bytes()),
            final(self)@.structure.len() <= old(self)@.structure.len() + 15,
            final(self)@.strings.len() == old(self)@.strings.len() + name.spec_bytes().len() + 1,
    {
        let empty: [u8; 0] = [];
        assert(empty@ =~= Seq::<u8>::empty());
        self.prop(name, &empty);
    }

    /// Closes the structure block and lays out header, reservation block, structure and strings.
    fn finish(self) -> (r: Vec<u8>)
        requires
            self.wf(),
            self@.fits(),
        ensures
            r@ == fdt_blob(self@),
    {
        let mut w = self;
        w.u32(FDT_END);
        let struct_len = w.buf.len() as u32;
        let strtab_len = w.strtab.len() as u32;
        let total = 40 + 16 + struct_len + strtab_len;
        let mut hdr: Vec<u8> = Vec::with_capacity(total as usize);
        append(&mut hdr, &u32_to_be(FDT_MAGIC));
        append(&mut hdr, &u32_to_be(total));
        append(&mut hdr, &u32_to_be(40 + 16));
        append(&mut hdr, &u32_to_be(40 + 16 + struct_len));
        append(&mut hdr, &u32_to_be(40));
        append(&mut hdr, &u32_to_be(FDT_VERSION));
        append(&mut hdr, &u32_to_be(FDT_COMPAT));
        append(&mut hdr, &u32_to_be(0));
        append(&mut hdr, &u32_to_be(strtab_len));
        append(&mut hdr, &u32_to_be(struct_len));
        append(&mut hdr, &u64_to_be(0));
        append(&mut hdr, &u64_to_be(0));
        append(&mut hdr, w.buf.as_slice());
        append(&mut hdr, w.strtab.as_slice());
        hdr
    }
}

/// Opens the root node and writes its properties.
fn write_root_props(f: &mut FdtWriter)
    requires
        old(f).wf(),
        old(f)@.strings.len() <= 0x1_0000,
        old(f)@.structure.len() <= 0x10_0000,
    ensures
        final(f).wf(),
        final(f)@ == root_props(old(f)@),
        final(f)@.strings.len() <= old(f)@.strings.len() + 0x400,
        final(f)@.structure.len() <= old(f)@.structure.len() + 0x1000,
{
    proof {
        reveal(root_props);
        reveal_strlit("");
        is_ascii_spec_bytes("");
        reveal_strlit("#address-cells");
        is_ascii_spec_bytes("#address-cells");
        reveal_strlit("#size-cells");
        is_ascii_spec_bytes("#size-cells");
        reveal_strlit("compatible");
        is_ascii_spec_bytes("compatible");
        reveal_strlit("riscv-virtio");
        is_ascii_spec_bytes("riscv-virtio");
        reveal_strlit("model");
        is_ascii_spec_bytes("model");
        reveal_strlit("riscv-vm");
        is_ascii_spec_bytes("riscv-vm");
    }
    f.begin_node("");
    let c2 = [2u32];
    assert(c2@ =~= seq![2u32]);
    f.prop_cells("#address-cells", &c2);
    f.prop_cells("#size-cells", &c2);
    f.prop_str("compatible", "riscv-virtio");
    f.prop_str("model", "riscv-vm");
}

/// Writes the `chosen` node.
fn write_chosen(f: &mut FdtWriter)
    requires
        old(f).wf(),
        old(f)@.strings.len() <= 0x1_0000,
        old(f)@.structure.len() <= 0x10_0000,
    ensures
        final(f).wf(),
        final(f)@ == chosen_node(old(f)@),
        final(f)@.strings.len() <= old(f)@.strings.len() + 0x400,
        final(f)@.structure.len() <= old(f)@.structure.len() + 0x1000,
{
    proof {
        reveal(chosen_node);
        reveal_strlit("chosen");
        is_ascii_spec_bytes("chosen");
        reveal_strlit("bootargs");
        is_ascii_spec_bytes("bootargs");
        reveal_strlit("console=ttyS0 earlycon=uart8250,mmio,0x10000000");
        is_ascii_spec_bytes("console=ttyS0 earlycon=uart8250,mmio,0x10000000");
        reveal_strlit("stdout-path");
        is_ascii_spec_bytes("stdout-path");
        reveal_strlit("/soc/uart@10000000");
        is_ascii_spec_bytes("/soc/uart@10000000");
    }
    f.begin_node("chosen");
    f.prop_str("bootargs", "console=ttyS0 earlycon=uart8250,mmio,0x10000000");
    f.prop_str("stdout-path", "/soc/uart@10000000");
    f.end_node();
}

/// Writes the memory node.
fn write_memory(f: &mut FdtWriter)
    requires
        old(f).wf(),
        old(f)@.strings.len() <= 0x1_0000,
        old(f)@.structure.len() <= 0x10_0000,
    ensures
        final(f).wf(),
        final(f)@ == memory_node(old(f)@),
        final(f)@.strings.len() <= old(f)@.strings.len() + 0x400,
        final(f)@.structure.len() <= old(f)@.structure.len() + 0x1000,
{
    proof {
        reveal(memory_node);
        reveal_strlit("memory@80000000");
        is_ascii_spec_bytes("memory@80000000");
        reveal_strlit("device_type");
        is_ascii_spec_bytes("device_type");
        reveal_strlit("memory");
        is_ascii_spec_bytes("memory");
        reveal_strlit("reg");
        is_ascii_spec_bytes("reg");
    }
    f.begin_node("memory@80000000");
    f.prop_str("device_type", "memory");
    let mem_reg = [0u32, 0x8000_0000, 0, 0x0800_0000]; // 128 MiB
    assert(mem_reg@ =~= seq![0u32, 0x8000_0000, 0, 0x0800_0000]);
    f.prop_cells("reg", &mem_reg);
    f.end_node();
}

/// Writes the `cpus` node with the hart and its interrupt controller.
fn write_cpus(f: &mut FdtWriter)
    requires
        old(f).wf(),
        old(f)@.strings.len() <= 0x1_0000,
        old(f)@.structure.len() <= 0x10_0000,
    ensures
        final(f).wf(),
        final(f)@ == cpus_node(old(f)@),
        final(f)@.strings.len() <= old(f)@.strings.len() + 0x400,
        final(f)@.structure.len() <= old(f)@.structure.len() + 0x1000,
{
    proof {
        reveal(cpus_node);
        reveal_strlit("cpus");
        is_ascii_spec_bytes("cpus");
        reveal_strlit("#address-cells");
        is_ascii_spec_bytes("#address-cells");
        reveal_strlit("#size-cells");
        is_ascii_spec_bytes("#size-cells");
        reveal_strlit("timebase-frequency");
        is_ascii_spec_bytes("timebase-frequency");
        reveal_strlit("cpu@0");
        is_ascii_spec_bytes("cpu@0");
        reveal_strlit("device_type");
        is_ascii_spec_bytes("device_type");
        reveal_strlit("cpu");
        is_ascii_spec_bytes("cpu");
        reveal_strlit("reg");
        is_ascii_spec_bytes("reg");
        reveal_strlit("compatible");
        is_ascii_spec_bytes("compatible");
        reveal_strlit("riscv");
        is_ascii_spec_bytes("riscv");
        reveal_strlit("riscv,isa");
        is_ascii_spec_bytes("riscv,isa");
        reveal_strlit("rv64imafd");
        is_ascii_spec_bytes("rv64imafd");
        reveal_strlit("mmu-type");
        is_ascii_spec_bytes("mmu-type");
        reveal_strlit("riscv,sv39");
        is_ascii_spec_bytes("riscv,sv39");
        reveal_strlit("clock-frequency");
        is_ascii_spec_bytes("clock-frequency");
        reveal_strlit("status");
        is_ascii_spec_bytes("status");
        reveal_strlit("okay");
        is_ascii_spec_bytes("okay");
        reveal_strlit("interrupt-controller");
        is_ascii_spec_bytes("interrupt-controller");
        reveal_strlit("#interrupt-cells");
        is_ascii_spec_bytes("#interrupt-cells");
        reveal_strlit("riscv,cpu-intc");
        is_ascii_spec_bytes("riscv,cpu-intc");
    }
    f.begin_node("cpus");
    let c1 = [1u32];
    assert(c1@ =~= seq![1u32]);
    let c0 = [0u32];
    assert(c0@ =~= seq![0u32]);
    f.prop_cells("#address-cells", &c1);
    f.prop_cells("#size-cells", &c0);
    f.prop_u32("timebase-frequency", 10_000_000);

    f.begin_node("cpu@0");
    f.prop_str("device_type", "cpu");
    f.prop_u32("reg", 0);
    f.prop_str("compatible", "riscv");
    f.prop_str("riscv,isa", "rv64imafd");
    f.prop_str("mmu-type", "riscv,sv39");
    f.prop_u32("clock-frequency", 100_000_000);
    f.prop_str("status", "okay");

    f.begin_node("interrupt-controller");
    f.prop_cells("#interrupt-cells", &c1);
    f.prop_empty("interrupt-controller");
    f.prop_str("compatible", "riscv,cpu-intc");
    f.end_node(); // interrupt-controller
    f.end_node(); // cpu@0
    f.end_node(); // cpus
}

/// Writes the `soc` node with the CLINT, the PLIC and the UART.
fn write_soc(f: &mut FdtWriter)
    requires
        old(f).wf(),
        old(f)@.strings.len() <= 0x1_0000,
        old(f)@.structure.len() <= 0x10_0000,
    ensures
        final(f).wf(),
        final(f)@ == soc_node(old(f)@),
        final(f)@.strings.len() <= old(f)@.strings.len() + 0x400,
        final(f)@.structure.len() <= old(f)@.structure.len() + 0x1000,
{
    proof {
        reveal(soc_node);
        reveal_strlit("soc");
        is_ascii_spec_bytes("soc");
        reveal_strlit("#address-cells");
        is_ascii_spec_bytes("#address-cells");
        reveal_strlit("#size-cells");
        is_ascii_spec_bytes("#size-cells");
        reveal_strlit("compatible");
        is_ascii_spec_bytes("compatible");
        reveal_strlit("simple-bus");
        is_ascii_spec_bytes("simple-bus");
        reveal_strlit("ranges");
        is_ascii_spec_bytes("ranges");
        reveal_strlit("clint@2000000");
        is_ascii_spec_bytes("clint@2000000");
        reveal_strlit("riscv,clint0");
        is_ascii_spec_bytes("riscv,clint0");
        reveal_strlit("reg");
        is_ascii_spec_bytes("reg");
        reveal_strlit("interrupts-extended");
        is_ascii_spec_bytes("interrupts-extended");
        reveal_strlit("plic@c000000");
        is_ascii_spec_bytes("plic@c000000");
        reveal_strlit("riscv,plic0");
        is_ascii_spec_bytes("riscv,plic0");
        reveal_strlit("riscv,ndev");
        is_ascii_spec_bytes("riscv,ndev");
        reveal_strlit("uart@10000000");
        is_ascii_spec_bytes("uart@10000000");
        reveal_strlit("ns16550a");
        is_ascii_spec_bytes("ns16550a");
        reveal_strlit("clock-frequency");
        is_ascii_spec_bytes("clock-frequency");
        reveal_strlit("interrupt-parent");
        is_ascii_spec_bytes("interrupt-parent");
        reveal_strlit("interrupts");
        is_ascii_spec_bytes("interrupts");
    }
    f.begin_node("soc");
    let c2 = [2u32];
    assert(c2@ =~= seq![2u32]);
    f.prop_cells("#address-cells", &c2);
    f.prop_cells("#size-cells", &c2);
    f.prop_str("compatible", "simple-bus");
    f.prop_empty("ranges");

    // CLINT
    f.begin_node("clint@2000000");
    f.prop_str("compatible", "riscv,clint0");
    let clint_reg = [0u32, 0x200_0000, 0, 0x1_0000];
    assert(clint_reg@ =~= seq![0u32, 0x200_0000, 0, 0x1_0000]);
    f.prop_cells("reg", &clint_reg);
    let clint_irqs = [1u32, 3, 1, 7];
    assert(clint_irqs@ =~= seq![1u32, 3, 1, 7]);
    f.prop_cells("interrupts-extended", &clint_irqs);
    f.end_node();

    // PLIC
    f.begin_node("plic@c000000");
    f.prop_str("compatible", "riscv,plic0");
    let plic_reg = [0u32, 0xC00_0000, 0, 0x400_0000];
    assert(plic_reg@ =~= seq![0u32, 0xC00_0000, 0, 0x400_0000]);
    f.prop_cells("reg", &plic_reg);
    let plic_irqs = [1u32, 11, 1, 9];
    assert(plic_irqs@ =~= seq![1u32, 11, 1, 9]);
    f.prop_cells("interrupts-extended", &plic_irqs);
    f.prop_u32("riscv,ndev", 53);
    f.end_node();

    // UART 16550
    f.begin_node("uart@10000000");
    f.prop_str("compatible", "ns16550a");
    let uart_reg = [0u32, 0x1000_0000, 0, 0x100];
    assert(uart_reg@ =~= seq![0u32, 0x1000_0000, 0, 0x100]);
    f.prop_cells("reg", &uart_reg);
    f.prop_u32("clock-frequency", 0x38_4000);
    f.prop_u32("interrupt-parent", 0x02);
    f.prop_u32("interrupts", 10);
    f.end_node();

    f.end_node(); // soc
}

/// The device-tree blob handed to the kernel: `machine_fdt()` laid out as a DTB.
pub fn generate_dtb() -> (r: Vec<u8>)
    ensures
        r@ == fdt_blob(machine_fdt()),
        machine_fdt().fits(),
{
    let mut f = FdtWriter::new();
    write_root_props(&mut f);
    write_chosen(&mut f);
    write_memory(&mut f);
    write_cpus(&mut f);
    write_soc(&mut f);
    f.end_node(); // root
    f.finish()
}

} // verus!
