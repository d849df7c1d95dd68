use vstd::prelude::*;
use vstd::slice::slice_subrange;
use crate::traps::TrapCause;

verus! {

pub const UART_BASE: u64 = 0x1000_0000;
pub const UART_END: u64 = 0x1000_00FF;

// 8250 UART register offsets (DLAB=0)
/// Transmit holding register (write).
pub const THR: u64 = 0;
/// Interrupt enable.
pub const IER: u64 = 1;
/// FIFO control (write). With DLAB=1, offsets 0 and 1 are the divisor latch DLL and DLM.
pub const FCR: u64 = 2;
/// Line control.
pub const LCR: u64 = 3;
/// Modem control.
pub const MCR: u64 = 4;
/// Line status.
pub const LSR: u64 = 5;
/// Modem status.
pub const MSR: u64 = 6;

/// Divisor latch access bit of LCR.
pub const LCR_DLAB: u8 = 0x80;
pub const LSR_TX_EMPTY: u8 = 0x20;
pub const LSR_TX_EMPTY_ALL: u8 = 0x40;
/// DCD, RI, DSR and CTS asserted.
pub const MSR_ALL_ASSERTED: u8 = 0xF0;

/// Capacity of the transmit buffer; bytes written while it is full are dropped.
pub const OUT_CAPACITY: usize = 4096;

/// Abstract state of the UART: the transmitted bytes not yet flushed, and its registers.
/// The characters of ASCII bytes, one for each.
pub open spec fn ascii_chars(b: Seq<u8>) -> Seq<char> {
    b.map_values(|x: u8| x as char)
}

/// The text that the bytes `b` encode as UTF-8; `None` where they are not valid UTF-8.
pub uninterp spec fn utf8_text(b: Seq<u8>) -> Option<Seq<char>>;

/// `std::str::from_utf8`, which gives the text that the bytes encode when they are valid
/// UTF-8 and fails otherwise. Claimed: the result is `utf8_text` of the bytes, and bytes
/// below 128 (ASCII, each its own one-byte character) always decode, byte for character.
#[verifier::external_body]
fn str_from_utf8(b: &[u8]) -> (r: Option<&str>)
    ensures
        r is Some ==> utf8_text(b@) == Some(r.unwrap()@),
        r is None ==> utf8_text(b@) is None,
        r is None ==> exists|i: int| 0 <= i < b@.len() && b@[i] >= 128,
        r is Some && (forall|i: int| 0 <= i < b@.len() ==> b@[i] < 128) ==> r.unwrap()@ == ascii_chars(b@),
{
    std::str::from_utf8(b).ok()
}

pub struct UartView {
    pub out: Seq<u8>,
    pub ier: u8,
    pub lcr: u8,
    pub mcr: u8,
    pub dll: u8,
    pub dlm: u8,
}

impl UartView {
    pub open spec fn dlab(self) -> bool {
        self.lcr & LCR_DLAB != 0
    }

    /// What a byte read at `offset` returns.
    pub open spec fn read8(self, offset: u64) -> u8 {
        if offset == 0 && self.dlab() {
            self.dll
        } else if offset == 1 && self.dlab() {
            self.dlm
        } else if offset == IER {
            self.ier
        } else if offset == LCR {
            self.lcr
        } else if offset == MCR {
            self.mcr
        } else if offset == LSR {
            LSR_TX_EMPTY | LSR_TX_EMPTY_ALL
        } else if offset == MSR {
            MSR_ALL_ASSERTED
        } else {
            0
        }
    }

    /// The UART after a byte write of `val` at `offset`: with DLAB set, offsets 0 and 1
    /// set the divisor latch; otherwise a write to THR transmits the byte (carriage returns
    /// and bytes beyond the buffer's capacity are dropped).
    pub open spec fn write8(self, offset: u64, val: u8) -> UartView {
        if offset == 0 && self.dlab() {
            UartView { dll: val, ..self }
        } else if offset == 1 && self.dlab() {
            UartView { dlm: val, ..self }
        } else if offset == THR {
            if val != 13u8 && self.out.len() < OUT_CAPACITY {
                UartView { out: self.out.push(val), ..self }
            } else {
                self
            }
        } else if offset == IER {
            UartView { ier: val & 0x0F, ..self }
        } else if offset == LCR {
            UartView { lcr: val, ..self }
        } else if offset == MCR {
            UartView { mcr: val & 0x1F, ..self }
        } else {
            self
        }
    }

    pub open spec fn reset() -> UartView {
        UartView { out: Seq::empty(), ier: 0, lcr: 0, mcr: 0, dll: 0, dlm: 0 }
    }
}

/// An 8250/16550-style UART that collects transmitted bytes for the host to print.
pub struct Uart {
    out_buf: [u8; 4096],
    out_len: usize,
    ier: u8,
    lcr: u8,
    mcr: u8,
    dll: u8,
    dlm: u8,
}

impl View for Uart {
    type V = UartView;

    closed spec fn view(&self) -> UartView {
        UartView {
            out: self.out_buf@.take(self.out_len as int),
            ier: self.ier,
            lcr: self.lcr,
            mcr: self.mcr,
            dll: self.dll,
            dlm: self.dlm,
        }
    }
}

impl Uart {
    /// The buffered byte count never exceeds the buffer.
    pub closed spec fn wf(&self) -> bool {
        self.out_len <= OUT_CAPACITY
    }

    pub fn new() -> (u: Self)
        ensures
            u.wf(),
            u@ == UartView::reset(),
    {
        let u = Self { out_buf: [0u8; 4096], out_len: 0, ier: 0, lcr: 0, mcr: 0, dll: 0, dlm: 0 };
        assert(u@.out =~= Seq::<u8>::empty());
        u
    }

    pub fn read8(&self, offset: u64) -> (r: Result<u8, TrapCause>)
        ensures
            r == Ok::<u8, TrapCause>(self@.read8(offset)),
    {
        let dlab = self.lcr & LCR_DLAB != 0;
        if offset == 0 && dlab {
            Ok(self.dll)
        } else if offset == 1 && dlab {
            Ok(self.dlm)
        } else if offset == IER {
            Ok(self.ier)
        } else if offset == LCR {
            Ok(self.lcr)
        } else if offset == MCR {
            Ok(self.mcr)
        } else if offset == LSR {
            Ok(LSR_TX_EMPTY | LSR_TX_EMPTY_ALL)
        } else if offset == MSR {
            Ok(MSR_ALL_ASSERTED)
        } else {
            Ok(0)
        }
    }

    /// Hands out the transmitted bytes as text and empties the buffer; bytes that are not
    /// valid UTF-8 give the empty text.
    pub fn flush_output(&mut self) -> (r: &str)
        requires
            old(self).wf(),
        ensures
            final(self).wf(),
            final(self)@ == (UartView { out: Seq::empty(), ..old(self)@ }),
            match utf8_text(old(self)@.out) {
                Some(t) => r@ == t,
                None => r@ == Seq::<char>::empty(),
            },
            (forall|i: int| 0 <= i < old(self)@.out.len() ==> old(self)@.out[i] < 128) ==> r@ == ascii_chars(old(self)@.out),
    {
        let n = self.out_len;
        self.out_len = 0;
        assert(self@.out =~= Seq::<u8>::empty());
        let bytes = slice_subrange(self.out_buf.as_slice(), 0, n);
        match str_from_utf8(bytes) {
            Some(s) => s,
            None => {
                let e = "";
                proof {
                    reveal_strlit("");
                    assert(utf8_text(bytes@) is None);
                    assert(bytes@ =~= old(self)@.out);
                }
                e
            },
        }
    }

    pub fn write8(&mut self, offset: u64, val: u8) -> (r: Result<(), TrapCause>)
        requires
            old(self).wf(),
        ensures
            final(self).wf(),
            final(self)@ == old(self)@.write8(offset, val),
            r == Ok::<(), TrapCause>(()),
    {
        let dlab = self.lcr & LCR_DLAB != 0;
        if offset == 0 && dlab {
            self.dll = val;
        } else if offset == 1 && dlab {
            self.dlm = val;
        } else if offset == THR {
            if val != 13u8 && self.out_len < OUT_CAPACITY {
                self.out_buf[self.out_len] = val;
                self.out_len = self.out_len + 1;
                assert(self@.out =~= old(self)@.out.push(val));
            }
        } else if offset == IER {
            self.ier = val & 0x0F;
        } else if offset == LCR {
            self.lcr = val;
        } else if offset == MCR {
            self.mcr = val & 0x1F;
        }
        Ok(())
    }
}

} // verus!
