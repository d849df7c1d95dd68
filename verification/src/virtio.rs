//! A virtio-mmio block device (version 2) with one split virtqueue of at most 8 entries.
use vstd::prelude::*;
use crate::memory::{copy_bytes, copy_to_slice, copy_to_vec, rd16, rd16_at, rd32, rd32_at, rd64, rd64_at, store_le, DRAM_BASE};
use crate::word::{set_high, set_low, spec_set_high, spec_set_low};

verus! {

// Register offsets in the device's MMIO window.
pub const VIRTIO_MAGIC: u64 = 0x000;
pub const VIRTIO_VERSION: u64 = 0x004;
pub const VIRTIO_DEVICE_ID: u64 = 0x008;
pub const VIRTIO_VENDOR_ID: u64 = 0x00C;
pub const VIRTIO_DEVICE_FEATURES: u64 = 0x010;
pub const VIRTIO_DEVICE_FEATURES_SEL: u64 = 0x014;
pub const VIRTIO_DRIVER_FEATURES: u64 = 0x020;
pub const VIRTIO_DRIVER_FEATURES_SEL: u64 = 0x024;
pub const VIRTIO_QUEUE_NUM_MAX: u64 = 0x034;
pub const VIRTIO_QUEUE_NUM: u64 = 0x038;
pub const VIRTIO_QUEUE_READY: u64 = 0x044;
pub const VIRTIO_INTERRUPT_STATUS: u64 = 0x060;
pub const VIRTIO_INTERRUPT_ACK: u64 = 0x064;
pub const VIRTIO_STATUS: u64 = 0x070;
pub const VIRTIO_QUEUE_DESC_LOW: u64 = 0x080;
pub const VIRTIO_QUEUE_DESC_HIGH: u64 = 0x084;
pub const VIRTIO_QUEUE_DRIVER_LOW: u64 = 0x090;
pub const VIRTIO_QUEUE_DRIVER_HIGH: u64 = 0x094;
pub const VIRTIO_QUEUE_DEVICE_LOW: u64 = 0x0A0;
pub const VIRTIO_QUEUE_DEVICE_HIGH: u64 = 0x0A4;
pub const VIRTIO_CONFIG: u64 = 0x100;

/// "virt", little endian.
pub const VIRTIO_MAGIC_VALUE: u32 = 0x7472_6976;
/// "QEMU", little endian.
pub const VIRTIO_VENDOR_VALUE: u32 = 0x554d_4551;
/// The descriptor flag that says another descriptor follows.
pub const VRING_DESC_F_NEXT: u16 = 1;
/// The size of the backing disk: 64 MiB.
pub const VIRTIO_DISK_SIZE: usize = 0x400_0000;

/// Abstract state of the device.
#[verifier::ext_equal]
pub struct VirtioView {
    pub device_features_select: u32,
    pub driver_features_select: u32,
    pub driver_features: u64,
    pub queue_number: u32,
    pub queue_ready: u32,
    pub status: u32,
    pub interrupt_status: u32,
    pub descriptor_table_addr: u64,
    pub available_ring_addr: u64,
    pub used_ring_addr: u64,
    pub last_available_index: u16,
    pub disk: Seq<u8>,
    pub irq_pending: bool,
}

/// One virtqueue descriptor: buffer address, length, flags and the index of the next one.
pub struct Desc {
    pub addr: u64,
    pub len: u32,
    pub flags: u16,
    pub next: u16,
}

/// Number of increments (mod 2^16) that take ring index `from` to `to`.
pub open spec fn ring_distance(to: u16, from: u16) -> nat {
    if to >= from { (to - from) as nat } else { (to + 0x1_0000 - from) as nat }
}

/// The ring index after `i`.
pub open spec fn ring_next(i: u16) -> u16 {
    if i == 0xFFFF { 0 } else { (i + 1) as u16 }
}

/// The disk offset of `sector`, saturating at the largest offset.
pub open spec fn sector_offset(sector: usize) -> usize {
    if sector * 512 > usize::MAX { usize::MAX } else { (sector * 512) as usize }
}

pub open spec fn min_int(a: int, b: int) -> int {
    if a <= b { a } else { b }
}

impl VirtioView {
    /// The device right after reset: everything zero, an all-zero disk of `VIRTIO_DISK_SIZE` bytes.
    pub open spec fn reset() -> VirtioView {
        VirtioView {
            device_features_select: 0,
            driver_features_select: 0,
            driver_features: 0,
            queue_number: 0,
            queue_ready: 0,
            status: 0,
            interrupt_status: 0,
            descriptor_table_addr: 0,
            available_ring_addr: 0,
            used_ring_addr: 0,
            last_available_index: 0,
            disk: Seq::new(VIRTIO_DISK_SIZE as nat, |i: int| 0u8),
            irq_pending: false,
        }
    }

    /// The value of the 32-bit register at `offset`.
    pub open spec fn read32(self, offset: u64) -> u32 {
        if offset == VIRTIO_MAGIC {
            VIRTIO_MAGIC_VALUE
        } else if offset == VIRTIO_VERSION {
            2
        } else if offset == VIRTIO_DEVICE_ID {
            2
        } else if offset == VIRTIO_VENDOR_ID {
            VIRTIO_VENDOR_VALUE
        } else if offset == VIRTIO_DEVICE_FEATURES {
            // Only VIRTIO_F_VERSION_1 (feature bit 32) is offered.
            if self.device_features_select == 1 { 1 } else { 0 }
        } else if offset == VIRTIO_QUEUE_NUM_MAX {
            8
        } else if offset == VIRTIO_QUEUE_READY {
            self.queue_ready
        } else if offset == VIRTIO_INTERRUPT_STATUS {
            self.interrupt_status
        } else if offset == VIRTIO_STATUS {
            self.status
        } else if offset == VIRTIO_CONFIG {
            ((self.disk.len() / 512) as u64) as u32
        } else if offset == VIRTIO_CONFIG + 4 {
            (((self.disk.len() / 512) as u64) >> 32u64) as u32
        } else {
            0
        }
    }

    /// The device after the driver writes `value` to the 32-bit register at `offset`.
    pub open spec fn write32(self, offset: u64, value: u32) -> VirtioView {
        if offset == VIRTIO_DEVICE_FEATURES_SEL {
            VirtioView { device_features_select: value, ..self }
        } else if offset == VIRTIO_DRIVER_FEATURES_SEL {
            VirtioView { driver_features_select: value, ..self }
        } else if offset == VIRTIO_DRIVER_FEATURES {
            VirtioView {
                driver_features: if self.driver_features_select == 0 {
                    spec_set_low(self.driver_features, value)
                } else {
                    spec_set_high(self.driver_features, value)
                },
                ..self
            }
        } else if offset == VIRTIO_QUEUE_NUM {
            VirtioView { queue_number: value, ..self }
        } else if offset == VIRTIO_QUEUE_READY {
            VirtioView { queue_ready: value, ..self }
        } else if offset == VIRTIO_INTERRUPT_ACK {
            VirtioView { interrupt_status: self.interrupt_status & !value, ..self }
        } else if offset == VIRTIO_STATUS {
            VirtioView { status: value, ..self }
        } else if offset == VIRTIO_QUEUE_DESC_LOW {
            VirtioView { descriptor_table_addr: spec_set_low(self.descriptor_table_addr, value), ..self }
        } else if offset == VIRTIO_QUEUE_DESC_HIGH {
            VirtioView { descriptor_table_addr: spec_set_high(self.descriptor_table_addr, value), ..self }
        } else if offset == VIRTIO_QUEUE_DRIVER_LOW {
            VirtioView { available_ring_addr: spec_set_low(self.available_ring_addr, value), ..self }
        } else if offset == VIRTIO_QUEUE_DRIVER_HIGH {
            VirtioView { available_ring_addr: spec_set_high(self.available_ring_addr, value), ..self }
        } else if offset == VIRTIO_QUEUE_DEVICE_LOW {
            VirtioView { used_ring_addr: spec_set_low(self.used_ring_addr, value), ..self }
        } else if offset == VIRTIO_QUEUE_DEVICE_HIGH {
            VirtioView { used_ring_addr: spec_set_high(self.used_ring_addr, value), ..self }
        } else {
            self
        }
    }

    /// The number of queue entries in use.
    pub open spec fn queue_size(self) -> int {
        min_int(self.queue_number as int, 8)
    }

    /// Descriptor `idx` of the descriptor table, or `None` where it does not lie in `dram`.
    pub open spec fn desc(self, dram: Seq<u8>, idx: u16) -> Option<Desc> {
        let pa = self.descriptor_table_addr + idx * 16;
        if pa > u64::MAX || pa < DRAM_BASE {
            None
        } else {
            let i = ((pa - DRAM_BASE) as u64) as usize as int;
            if i + 16 > dram.len() {
                None
            } else {
                Some(Desc { addr: rd64(dram, i), len: rd32(dram, i + 8), flags: rd16(dram, i + 12), next: rd16(dram, i + 14) })
            }
        }
    }

    /// Publishing the completion of the chain at `head` with `len` bytes written in the used
    /// ring: the entry at the used index (mod the queue size), then the index bumped.
    /// `None` where the ring does not lie in `dram`.
    pub open spec fn push_used(self, dram: Seq<u8>, head: u16, len: u32) -> Option<Seq<u8>> {
        if self.used_ring_addr < DRAM_BASE {
            None
        } else {
            let u = ((self.used_ring_addr - DRAM_BASE) as u64) as usize as int;
            if u + 4 > dram.len() {
                None
            } else {
                let idx = rd16(dram, u + 2);
                let e = u + 4 + (idx as int % self.queue_size()) * 8;
                if e + 8 > dram.len() {
                    None
                } else {
                    let d1 = store_le(dram, e, head as u64, 4);
                    let d2 = store_le(d1, e + 4, len as u64, 4);
                    Some(store_le(d2, u + 2, ring_next(idx) as u64, 2))
                }
            }
        }
    }

    /// Serving a request whose header is in `d0` and data buffer in `d1`, with status byte in
    /// `d2` if the chain has three descriptors: type 0 reads disk sectors into memory, any other
    /// type writes memory to the disk; the length is cut at the end of the disk, a request
    /// past the end transfers nothing; the status byte is set to 0 (success) when it lies in
    /// `dram`. `None` where an access falls outside `dram`.
    pub open spec fn transfer(
        self,
        dram: Seq<u8>,
        head: u16,
        d0: Desc,
        d1: Desc,
        d2: Option<Desc>,
    ) -> Option<(VirtioView, Seq<u8>)> {
        if d0.addr < DRAM_BASE {
            None
        } else {
            let h = ((d0.addr - DRAM_BASE) as u64) as usize as int;
            if h + 16 > dram.len() {
                None
            } else {
                let rtype = rd32(dram, h);
                let doff = sector_offset(rd64(dram, h + 8) as usize) as int;
                if doff >= self.disk.len() {
                    match self.push_used(dram, head, 0) {
                        Some(d) => Some((self, d)),
                        None => None,
                    }
                } else if d1.addr < DRAM_BASE {
                    None
                } else {
                    let b = ((d1.addr - DRAM_BASE) as u64) as usize as int;
                    let n = min_int(d1.len as usize as int, self.disk.len() - doff);
                    if b + n > dram.len() {
                        None
                    } else {
                        let v2 = if rtype == 0 {
                            self
                        } else {
                            VirtioView { disk: copy_bytes(self.disk, doff, dram, b, n), ..self }
                        };
                        let m2 = if rtype == 0 { copy_bytes(dram, b, self.disk, doff, n) } else { dram };
                        let m3 = match d2 {
                            None => Some(m2),
                            Some(s) => if s.addr < DRAM_BASE {
                                None
                            } else {
                                let so = ((s.addr - DRAM_BASE) as u64) as usize as int;
                                if so < m2.len() { Some(m2.update(so, 0u8)) } else { Some(m2) }
                            },
                        };
                        match m3 {
                            None => None,
                            Some(m) => match v2.push_used(m, head, n as u32) {
                                Some(d) => Some((v2, d)),
                                None => None,
                            },
                        }
                    }
                }
            }
        }
    }

    /// Serving the descriptor chain that starts at `head`: up to three descriptors are
    /// followed; a chain of one descriptor is ignored.
    pub open spec fn chain(self, dram: Seq<u8>, head: u16) -> Option<(VirtioView, Seq<u8>)> {
        match self.desc(dram, head) {
            None => None,
            Some(d0) => if d0.flags & VRING_DESC_F_NEXT == 0 {
                Some((self, dram))
            } else {
                match self.desc(dram, d0.next) {
                    None => None,
                    Some(d1) => if d1.flags & VRING_DESC_F_NEXT == 0 {
                        self.transfer(dram, head, d0, d1, None)
                    } else {
                        match self.desc(dram, d1.next) {
                            None => None,
                            Some(d2) => self.transfer(dram, head, d0, d1, Some(d2)),
                        }
                    },
                }
            },
        }
    }

    /// Serving the next `n` available entries; the available ring starts at offset `a`.
    pub open spec fn drain(self, dram: Seq<u8>, a: int, n: nat) -> Option<(VirtioView, Seq<u8>)>
        decreases n,
    {
        if n == 0 {
            Some((self, dram))
        } else {
            let p = a + 4 + (self.last_available_index as int % self.queue_size()) * 2;
            if p + 2 > dram.len() {
                None
            } else {
                match self.chain(dram, rd16(dram, p)) {
                    None => None,
                    Some((v, m)) => VirtioView { last_available_index: ring_next(v.last_available_index), ..v }.drain(
                        m,
                        a,
                        (n - 1) as nat,
                    ),
                }
            }
        }
    }

    /// Whether the queue has been set up: ready, with a size and the three ring addresses.
    pub open spec fn queue_live(self) -> bool {
        self.queue_ready != 0 && self.queue_number != 0 && self.descriptor_table_addr != 0
            && self.available_ring_addr != 0 && self.used_ring_addr != 0
    }

    /// The device and memory after the driver notifies the queue: nothing happens unless the
    /// queue is live; otherwise every entry between the last seen and the current available
    /// index is served, and the used-buffer interrupt is raised. `None` where an access made
    /// on the way falls outside `dram`.
    pub open spec fn notify(self, dram: Seq<u8>) -> Option<(VirtioView, Seq<u8>)> {
        if !self.queue_live() {
            Some((self, dram))
        } else if self.available_ring_addr < DRAM_BASE {
            None
        } else {
            let a = ((self.available_ring_addr - DRAM_BASE) as u64) as usize as int;
            if a + 4 > dram.len() {
                None
            } else {
                match self.drain(dram, a, ring_distance(rd16(dram, a + 2), self.last_available_index)) {
                    None => None,
                    Some((v, m)) => Some((VirtioView { irq_pending: true, interrupt_status: v.interrupt_status | 1, ..v }, m)),
                }
            }
        }
    }
}

/// The virtio block device.
pub struct Virtio {
    device_features_select: u32,
    driver_features_select: u32,
    driver_features: u64,
    queue_number: u32,
    queue_ready: u32,
    status: u32,
    interrupt_status: u32,
    descriptor_table_addr: u64,
    available_ring_addr: u64,
    used_ring_addr: u64,
    last_available_index: u16,
    pub disk: Vec<u8>,
    pub irq_pending: bool,
}

impl View for Virtio {
    type V = VirtioView;

    closed spec fn view(&self) -> VirtioView {
        VirtioView {
            device_features_select: self.device_features_select,
            driver_features_select: self.driver_features_select,
            driver_features: self.driver_features,
            queue_number: self.queue_number,
            queue_ready: self.queue_ready,
            status: self.status,
            interrupt_status: self.interrupt_status,
            descriptor_table_addr: self.descriptor_table_addr,
            available_ring_addr: self.available_ring_addr,
            used_ring_addr: self.used_ring_addr,
            last_available_index: self.last_available_index,
            disk: self.disk@,
            irq_pending: self.irq_pending,
        }
    }
}

/// Stores the low `n` bytes of `v` at offset `i`, least significant first.
fn store_at(d: &mut [u8], i: usize, v: u64, n: u64)
    requires
        1 <= n <= 8,
        i + n <= old(d)@.len(),
    ensures
        final(d)@ == store_le(old(d)@, i as int, v, n as nat),
        final(d)@.len() == old(d)@.len(),
    decreases n,
{
    d[i] = v as u8;
    if n > 1 {
        store_at(d, i + 1, v >> 8, n - 1);
    } else {
        assert(store_le(d@, i + 1, v >> 8u64, 0) == d@);
    }
}

impl Virtio {
    /// A reset device with an all-zero 64 MiB disk.
    pub fn new() -> (v: Self)
        ensures
            v@ == VirtioView::reset(),
    {
        let v = Self {
            device_features_select: 0,
            driver_features_select: 0,
            driver_features: 0,
            queue_number: 0,
            queue_ready: 0,
            status: 0,
            interrupt_status: 0,
            descriptor_table_addr: 0,
            available_ring_addr: 0,
            used_ring_addr: 0,
            last_available_index: 0,
            disk: vec![0u8; VIRTIO_DISK_SIZE],
            irq_pending: false,
        };
        assert(v@ =~= VirtioView::reset());
        v
    }

    /// Reads the 32-bit register at `offset`.
    pub fn read32(&self, offset: u64) -> (r: u32)
        ensures
            r == self@.read32(offset),
    {
        let sectors = (self.disk.len() / 512) as u64;
        if offset == VIRTIO_MAGIC {
            VIRTIO_MAGIC_VALUE
        } else if offset == VIRTIO_VERSION {
            2
        } else if offset == VIRTIO_DEVICE_ID {
            2
        } else if offset == VIRTIO_VENDOR_ID {
            VIRTIO_VENDOR_VALUE
        } else if offset == VIRTIO_DEVICE_FEATURES {
            if self.device_features_select == 1 { 1 } else { 0 }
        } else if offset == VIRTIO_QUEUE_NUM_MAX {
            8
        } else if offset == VIRTIO_QUEUE_READY {
            self.queue_ready
        } else if offset == VIRTIO_INTERRUPT_STATUS {
            self.interrupt_status
        } else if offset == VIRTIO_STATUS {
            self.status
        } else if offset == VIRTIO_CONFIG {
            sectors as u32
        } else if offset == VIRTIO_CONFIG + 4 {
            (sectors >> 32) as u32
        } else {
            0
        }
    }

    /// Writes `value` to the 32-bit register at `offset`.
    pub fn write32(&mut self, offset: u64, value: u32)
        ensures
            final(self)@ == old(self)@.write32(offset, value),
    {
        if offset == VIRTIO_DEVICE_FEATURES_SEL {
            self.device_features_select = value;
        } else if offset == VIRTIO_DRIVER_FEATURES_SEL {
            self.driver_features_select = value;
        } else if offset == VIRTIO_DRIVER_FEATURES {
            self.driver_features = if self.driver_features_select == 0 {
                set_low(self.driver_features, value)
            } else {
                set_high(self.driver_features, value)
            };
        } else if offset == VIRTIO_QUEUE_NUM {
            self.queue_number = value;
        } else if offset == VIRTIO_QUEUE_READY {
            self.queue_ready = value;
        } else if offset == VIRTIO_INTERRUPT_ACK {
            self.interrupt_status = self.interrupt_status & !value;
        } else if offset == VIRTIO_STATUS {
            self.status = value;
        } else if offset == VIRTIO_QUEUE_DESC_LOW {
            self.descriptor_table_addr = set_low(self.descriptor_table_addr, value);
        } else if offset == VIRTIO_QUEUE_DESC_HIGH {
            self.descriptor_table_addr = set_high(self.descriptor_table_addr, value);
        } else if offset == VIRTIO_QUEUE_DRIVER_LOW {
            self.available_ring_addr = set_low(self.available_ring_addr, value);
        } else if offset == VIRTIO_QUEUE_DRIVER_HIGH {
            self.available_ring_addr = set_high(self.available_ring_addr, value);
        } else if offset == VIRTIO_QUEUE_DEVICE_LOW {
            self.used_ring_addr = set_low(self.used_ring_addr, value);
        } else if offset == VIRTIO_QUEUE_DEVICE_HIGH {
            self.used_ring_addr = set_high(self.used_ring_addr, value);
        }
    }

    /// Serves every new entry of the available ring, then raises the interrupt.
    pub fn handle_notify(&mut self, dram: &mut [u8])
        requires
            old(self)@.notify(old(dram)@) is Some,
        ensures
            (final(self)@, final(dram)@) == old(self)@.notify(old(dram)@)->0,
    {
        self.serve(dram);
    }

    /// Serves a notification as `handle_notify` does, where every access it makes lies in
    /// `dram`, and says whether that was so. On `false` the work stops at the first access
    /// that does not fit, what was done before it staying.
    pub fn try_handle_notify(&mut self, dram: &mut [u8]) -> (ok: bool)
        ensures
            ok == old(self)@.notify(old(dram)@) is Some,
            ok ==> (final(self)@, final(dram)@) == old(self)@.notify(old(dram)@)->0,
    {
        self.serve(dram)
    }

    #[verifier::rlimit(40)]
    fn serve(&mut self, dram: &mut [u8]) -> (ok: bool)
        ensures
            ok == old(self)@.notify(old(dram)@) is Some,
            ok ==> (final(self)@, final(dram)@) == old(self)@.notify(old(dram)@)->0,
    {
        if self.queue_ready == 0 || self.queue_number == 0 || self.descriptor_table_addr == 0
            || self.available_ring_addr == 0 || self.used_ring_addr == 0 {
            return true;
        }
        if self.available_ring_addr < DRAM_BASE {
            return false;
        }
        let ghost v0 = self@;
        let ghost d0 = dram@;
        let queue_size: usize = if self.queue_number < 8 { self.queue_number as usize } else { 8 };
        let dram_len = dram.len();
        let a = (self.available_ring_addr - DRAM_BASE) as usize;
        if dram_len < 4 || a > dram_len - 4 {
            return false;
        }
        let available_index = rd16_at(dram, a + 2);
        let ghost target = v0.drain(d0, a as int, ring_distance(available_index, v0.last_available_index));
        while self.last_available_index != available_index
            invariant
                self@.drain(dram@, a as int, ring_distance(available_index, self.last_available_index)) == target,
                self@.queue_size() == queue_size,
                self@.queue_live(),
                0 < queue_size <= 8,
                dram@.len() == dram_len,
                a + 4 <= dram@.len(),
                v0 == old(self)@,
                d0 == old(dram)@,
                match target {
                    None => v0.notify(d0) is None,
                    Some((v, m)) => v0.notify(d0) == Some(
                        (VirtioView { irq_pending: true, interrupt_status: v.interrupt_status | 1, ..v }, m),
                    ),
                },
            decreases ring_distance(available_index, self.last_available_index),
        {
            let slot = (self.last_available_index as usize) % queue_size;
            let ghost dist = ring_distance(available_index, self.last_available_index);
            let ghost sv = self@;
            let ghost dv = dram@;
            assert(dist > 0);
            if slot * 2 + 2 > dram.len() - (a + 4) {
                assert(sv.drain(dv, a as int, dist) is None);
                return false;
            }
            let head = rd16_at(dram, a + 4 + slot * 2);
            if !self.process_chain(head, dram) {
                assert(sv.drain(dv, a as int, dist) is None);
                return false;
            }
            self.last_available_index = self.last_available_index.wrapping_add(1);
        }
        self.irq_pending = true;
        self.interrupt_status = self.interrupt_status | 1;
        true
    }

    fn read_desc(&self, dram: &[u8], idx: u16) -> (d: Option<Desc>)
        ensures
            d == self@.desc(dram@, idx),
    {
        let dram_len = dram.len();
        let pa = match self.descriptor_table_addr.checked_add((idx as u64) * 16) {
            Some(p) => p,
            None => return None,
        };
        if pa < DRAM_BASE {
            return None;
        }
        let i = (pa - DRAM_BASE) as usize;
        if dram_len < 16 || i > dram_len - 16 {
            return None;
        }
        Some(
            Desc {
                addr: rd64_at(dram, i),
                len: rd32_at(dram, i + 8),
                flags: rd16_at(dram, i + 12),
                next: rd16_at(dram, i + 14),
            },
        )
    }

    /// Serves the descriptor chain at `head`. The chain is followed for at most three
    /// descriptors: request header, data buffer and status byte. `false` where an access
    /// falls outside `dram`.
    fn process_chain(&mut self, head: u16, dram: &mut [u8]) -> (ok: bool)
        requires
            old(self)@.queue_live(),
        ensures
            ok == old(self)@.chain(old(dram)@, head) is Some,
            ok ==> (final(self)@, final(dram)@) == old(self)@.chain(old(dram)@, head)->0,
            final(self)@.queue_live(),
            final(self)@.last_available_index == old(self)@.last_available_index,
            final(self)@.queue_number == old(self)@.queue_number,
            final(dram)@.len() == old(dram)@.len(),
    {
        let d0 = match self.read_desc(dram, head) {
            Some(d) => d,
            None => return false,
        };
        if d0.flags & VRING_DESC_F_NEXT == 0 {
            return true;
        }
        let d1 = match self.read_desc(dram, d0.next) {
            Some(d) => d,
            None => return false,
        };
        let d2 = if d1.flags & VRING_DESC_F_NEXT == 0 {
            None
        } else {
            match self.read_desc(dram, d1.next) {
                Some(d) => Some(d),
                None => return false,
            }
        };
        self.transfer(dram, head, d0, d1, d2)
    }

    fn transfer(&mut self, dram: &mut [u8], head: u16, d0: Desc, d1: Desc, d2: Option<Desc>) -> (ok: bool)
        requires
            old(self)@.queue_live(),
        ensures
            ok == old(self)@.transfer(old(dram)@, head, d0, d1, d2) is Some,
            ok ==> (final(self)@, final(dram)@) == old(self)@.transfer(old(dram)@, head, d0, d1, d2)->0,
            final(self)@.queue_live(),
            final(self)@.last_available_index == old(self)@.last_available_index,
            final(self)@.queue_number == old(self)@.queue_number,
            final(dram)@.len() == old(dram)@.len(),
    {
        let dram_len = dram.len();
        if d0.addr < DRAM_BASE {
            return false;
        }
        let h = (d0.addr - DRAM_BASE) as usize;
        if dram_len < 16 || h > dram_len - 16 {
            return false;
        }
        let request_type = rd32_at(dram, h);
        let sector_number = rd64_at(dram, h + 8) as usize;
        let disk_offset = if sector_number > usize::MAX / 512 { usize::MAX } else { sector_number * 512 };
        if disk_offset >= self.disk.len() {
            return self.push_used(dram, head, 0);
        }
        if d1.addr < DRAM_BASE {
            return false;
        }
        let b = (d1.addr - DRAM_BASE) as usize;
        let room = self.disk.len() - disk_offset;
        let n = if (d1.len as usize) < room { d1.len as usize } else { room };
        if b > dram_len || n > dram_len - b {
            return false;
        }
        let status_addr: Option<u64> = match &d2 {
            Some(s) => Some(s.addr),
            None => None,
        };
        if let Some(sa) = status_addr {
            if sa < DRAM_BASE {
                return false;
            }
        }
        if request_type == 0 {
            copy_to_slice(dram, b, &self.disk, disk_offset, n);
        } else {
            copy_to_vec(&mut self.disk, disk_offset, dram, b, n);
        }
        if let Some(sa) = status_addr {
            let so = (sa - DRAM_BASE) as usize;
            if so < dram.len() {
                dram[so] = 0;
            }
        }
        self.push_used(dram, head, n as u32)
    }

    fn push_used(&mut self, dram: &mut [u8], head: u16, len: u32) -> (ok: bool)
        requires
            old(self)@.queue_live(),
        ensures
            final(self)@ == old(self)@,
            ok == old(self)@.push_used(old(dram)@, head, len) is Some,
            ok ==> final(dram)@ == old(self)@.push_used(old(dram)@, head, len)->0,
            final(dram)@.len() == old(dram)@.len(),
    {
        let dram_len = dram.len();
        if self.used_ring_addr < DRAM_BASE {
            return false;
        }
        let u = (self.used_ring_addr - DRAM_BASE) as usize;
        if dram_len < 4 || u > dram_len - 4 {
            return false;
        }
        let used_index = rd16_at(dram, u + 2);
        let queue_size: usize = if self.queue_number < 8 { self.queue_number as usize } else { 8 };
        let slot8 = ((used_index as usize) % queue_size) * 8;
        if slot8 + 8 > dram_len - (u + 4) {
            return false;
        }
        let e = u + 4 + slot8;
        store_at(dram, e, head as u64, 4);
        store_at(dram, e + 4, len as u64, 4);
        store_at(dram, u + 2, (used_index.wrapping_add(1)) as u64, 2);
        true
    }
}

} // verus!
