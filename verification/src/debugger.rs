//! The interactive debugger's commands: what a command line asks for, and how it changes
//! the hart and the breakpoints. Printing and running are the front end's.
use vstd::prelude::*;
use crate::bus::{Bus, BusView};
use crate::cpu::{reset_view, Cpu, CpuView};
use crate::cpu::csr::CsrView;
use crate::cpu::csr::Privilege;

verus! {

// ===== Text =====

/// ASCII white space: space, tab, line feed, vertical tab, form feed, carriage return.
pub open spec fn is_ws(b: u8) -> bool {
    b == 32 || (9 <= b && b <= 13)
}

/// `s` without its leading white space.
pub open spec fn trim_start(s: Seq<u8>) -> Seq<u8>
    decreases s.len(),
{
    if s.len() > 0 && is_ws(s[0]) { trim_start(s.drop_first()) } else { s }
}

/// `s` without its trailing white space.
pub open spec fn trim_end(s: Seq<u8>) -> Seq<u8>
    decreases s.len(),
{
    if s.len() > 0 && is_ws(s.last()) { trim_end(s.drop_last()) } else { s }
}

/// `s` without white space at either end.
pub open spec fn trim(s: Seq<u8>) -> Seq<u8> {
    trim_end(trim_start(s))
}

/// The position of the first space in `s` at or after `k`.
pub open spec fn first_space(s: Seq<u8>, k: nat) -> Option<nat>
    decreases s.len() - k,
{
    if k >= s.len() {
        None
    } else if s[k as int] == 32 {
        Some(k)
    } else {
        first_space(s, k + 1)
    }
}

/// The part of `s` before its first space (all of `s` if it has none).
pub open spec fn head(s: Seq<u8>) -> Seq<u8> {
    match first_space(s, 0) {
        Some(k) => s.take(k as int),
        None => s,
    }
}

/// The part of `s` after its first space, if it has one.
pub open spec fn tail(s: Seq<u8>) -> Option<Seq<u8>> {
    match first_space(s, 0) {
        Some(k) => Some(s.skip(k + 1 as int)),
        None => None,
    }
}

/// `s` with every leading "0x" removed.
pub open spec fn strip_0x(s: Seq<u8>) -> Seq<u8>
    decreases s.len(),
{
    if s.len() >= 2 && s[0] == 48 && s[1] == 120 { strip_0x(s.skip(2)) } else { s }
}

/// The value of digit `b` in base `radix` (10 or 16, either case of letter).
pub open spec fn digit(b: u8, radix: nat) -> Option<nat> {
    if 48 <= b <= 57 && b - 48 < radix {
        Some((b - 48) as nat)
    } else if radix == 16 && 97 <= b <= 102 {
        Some((b - 87) as nat)
    } else if radix == 16 && 65 <= b <= 70 {
        Some((b - 55) as nat)
    } else {
        None
    }
}

/// The number that the digits `s` spell in base `radix`; `None` if one is not a digit.
pub open spec fn digits_value(s: Seq<u8>, radix: nat) -> Option<nat>
    decreases s.len(),
{
    if s.len() == 0 {
        Some(0)
    } else {
        match (digits_value(s.drop_last(), radix), digit(s.last(), radix)) {
            (Some(v), Some(d)) => Some(v * radix + d),
            _ => None,
        }
    }
}

/// An unsigned number in base `radix`, as the standard library parses one: an optional
/// leading `+`, then at least one digit; `None` when that fails or the value exceeds `max`.
pub open spec fn parse_num(s: Seq<u8>, radix: nat, max: nat) -> Option<nat> {
    let body = if s.len() > 1 && s[0] == 43 { s.drop_first() } else { s };
    if body.len() == 0 {
        None
    } else {
        match digits_value(body, radix) {
            Some(v) => if v <= max { Some(v) } else { None },
            None => None,
        }
    }
}

/// A longer run of digits is worth at least as much as its prefix.
proof fn lemma_digits_grow(s: Seq<u8>, radix: nat, i: int)
    requires
        0 <= i <= s.len(),
        radix >= 1,
        digits_value(s, radix) is Some,
    ensures
        digits_value(s.take(i), radix) is Some,
        digits_value(s.take(i), radix)->0 <= digits_value(s, radix)->0,
    decreases s.len(),
{
    if i < s.len() {
        assert(s.drop_last().take(i) =~= s.take(i));
        lemma_digits_grow(s.drop_last(), radix, i);
        let v = digits_value(s.drop_last(), radix)->0;
        assert(v <= v * radix) by (nonlinear_arith)
            requires
                radix >= 1,
        ;
    } else {
        assert(s.take(i) =~= s);
    }
}

fn digit_exec(b: u8, radix: u64) -> (r: Option<u64>)
    requires
        radix == 10 || radix == 16,
    ensures
        r matches Some(d) ==> digit(b, radix as nat) == Some(d as nat) && d < radix,
        r is None ==> digit(b, radix as nat) is None,
{
    if 48 <= b && b <= 57 && ((b - 48) as u64) < radix {
        Some((b - 48) as u64)
    } else if radix == 16 && 97 <= b && b <= 102 {
        Some((b - 87) as u64)
    } else if radix == 16 && 65 <= b && b <= 70 {
        Some((b - 55) as u64)
    } else {
        None
    }
}

/// Parses an unsigned number in base `radix` up to `max`.
pub fn parse_number(s: &[u8], radix: u64, max: u64) -> (r: Option<u64>)
    requires
        radix == 10 || radix == 16,
    ensures
        r matches Some(v) ==> parse_num(s@, radix as nat, max as nat) == Some(v as nat),
        r is None ==> parse_num(s@, radix as nat, max as nat) is None,
{
    let start: usize = if s.len() > 1 && s[0] == 43 { 1 } else { 0 };
    let ghost body = if s@.len() > 1 && s@[0] == 43 { s@.drop_first() } else { s@ };
    assert(body =~= s@.skip(start as int));
    if start >= s.len() {
        return None;
    }
    let mut acc: u64 = 0;
    let mut i: usize = start;
    while i < s.len()
        invariant
            start <= i <= s@.len(),
            body == s@.skip(start as int),
            body == (if s@.len() > 1 && s@[0] == 43 { s@.drop_first() } else { s@ }),
            body.len() > 0,
            radix == 10 || radix == 16,
            acc <= max,
            digits_value(body.take(i - start), radix as nat) == Some(acc as nat),
        decreases s@.len() - i,
    {
        let ghost pre = body.take(i - start);
        let ghost pre1 = body.take(i - start + 1);
        assert(pre1.drop_last() =~= pre);
        assert(pre1.last() == s@[i as int]);
        let d = match digit_exec(s[i], radix) {
            Some(d) => d,
            None => {
                proof {
                    assert(digits_value(pre1, radix as nat) is None);
                    if digits_value(body, radix as nat) is Some {
                        lemma_digits_grow(body, radix as nat, i - start + 1);
                    }
                }
                return None;
            },
        };
        let next = match acc.checked_mul(radix) {
            Some(m) => m.checked_add(d),
            None => None,
        };
        match next {
            Some(n) if n <= max => {
                acc = n;
            },
            _ => {
                proof {
                    assert(digits_value(pre1, radix as nat) == Some((acc * radix + d) as nat));
                    assert(acc * radix + d > max);
                    if digits_value(body, radix as nat) is Some {
                        lemma_digits_grow(body, radix as nat, i - start + 1);
                    }
                }
                return None;
            },
        }
        i = i + 1;
    }
    assert(body.take(s@.len() - start) =~= body);
    Some(acc)
}

fn same_bytes(a: &[u8], b: &[u8]) -> (r: bool)
    ensures
        r == (a@ == b@),
{
    if a.len() != b.len() {
        return false;
    }
    let mut k: usize = 0;
    while k < a.len()
        invariant
            a@.len() == b@.len(),
            k <= a@.len(),
            forall|t: int| 0 <= t < k ==> a@[t] == b@[t],
        decreases a@.len() - k,
    {
        if a[k] != b[k] {
            return false;
        }
        k = k + 1;
    }
    assert(a@ =~= b@);
    true
}

/// `s` without white space at either end.
pub fn trim_bytes(s: &[u8]) -> (r: &[u8])
    ensures
        r@ == trim(s@),
{
    let mut i: usize = 0;
    assert(s@.skip(0) =~= s@);
    while i < s.len() && (s[i] == 32 || (9 <= s[i] && s[i] <= 13))
        invariant
            i <= s@.len(),
            trim_start(s@.skip(i as int)) == trim_start(s@),
        decreases s@.len() - i,
    {
        assert(s@.skip(i as int).drop_first() =~= s@.skip(i + 1 as int));
        i = i + 1;
    }
    assert(trim_start(s@.skip(i as int)) == s@.skip(i as int));
    let mut j: usize = s.len();
    assert(s@.subrange(i as int, j as int) =~= s@.skip(i as int));
    while j > i && (s[j - 1] == 32 || (9 <= s[j - 1] && s[j - 1] <= 13))
        invariant
            i <= j <= s@.len(),
            trim_end(s@.subrange(i as int, j as int)) == trim(s@),
        decreases j,
    {
        assert(s@.subrange(i as int, j as int).drop_last() =~= s@.subrange(i as int, j - 1));
        j = j - 1;
    }
    vstd::slice::slice_subrange(s, i, j)
}

/// `s` split at its first space: the part before it, and the part after it if there is one.
pub fn split_space(s: &[u8]) -> (r: (&[u8], Option<&[u8]>))
    ensures
        r.0@ == head(s@),
        r.1 matches Some(t) ==> tail(s@) == Some(t@),
        r.1 is None ==> tail(s@) is None,
{
    let mut k: usize = 0;
    while k < s.len() && s[k] != 32
        invariant
            k <= s@.len(),
            first_space(s@, k as nat) == first_space(s@, 0),
        decreases s@.len() - k,
    {
        k = k + 1;
    }
    if k == s.len() {
        (s, None)
    } else {
        (vstd::slice::slice_subrange(s, 0, k), Some(vstd::slice::slice_subrange(s, k + 1, s.len())))
    }
}

/// `s` with every leading "0x" removed.
pub fn strip_0x_bytes(s: &[u8]) -> (r: &[u8])
    ensures
        r@ == strip_0x(s@),
{
    let mut i: usize = 0;
    assert(s@.skip(0) =~= s@);
    while s.len() - i >= 2 && s[i] == 48 && s[i + 1] == 120
        invariant
            i <= s@.len(),
            strip_0x(s@.skip(i as int)) == strip_0x(s@),
        decreases s@.len() - i,
    {
        assert(s@.skip(i as int).skip(2) =~= s@.skip(i + 2 as int));
        i = i + 2;
    }
    vstd::slice::slice_subrange(s, i, s.len())
}

// ===== Registers =====

/// The ABI name of register `r`, as bytes.
pub open spec fn abi_bytes(r: int) -> Seq<u8> {
    if r == 0 {
        seq![122u8, 101u8, 114u8, 111u8]
    } else if r == 1 {
        seq![114u8, 97u8]
    } else if r == 2 {
        seq![115u8, 112u8]
    } else if r == 3 {
        seq![103u8, 112u8]
    } else if r == 4 {
        seq![116u8, 112u8]
    } else if r == 5 {
        seq![116u8, 48u8]
    } else if r == 6 {
        seq![116u8, 49u8]
    } else if r == 7 {
        seq![116u8, 50u8]
    } else if r == 8 {
        seq![115u8, 48u8]
    } else if r == 9 {
        seq![115u8, 49u8]
    } else if r == 10 {
        seq![97u8, 48u8]
    } else if r == 11 {
        seq![97u8, 49u8]
    } else if r == 12 {
        seq![97u8, 50u8]
    } else if r == 13 {
        seq![97u8, 51u8]
    } else if r == 14 {
        seq![97u8, 52u8]
    } else if r == 15 {
        seq![97u8, 53u8]
    } else if r == 16 {
        seq![97u8, 54u8]
    } else if r == 17 {
        seq![97u8, 55u8]
    } else if r == 18 {
        seq![115u8, 50u8]
    } else if r == 19 {
        seq![115u8, 51u8]
    } else if r == 20 {
        seq![115u8, 52u8]
    } else if r == 21 {
        seq![115u8, 53u8]
    } else if r == 22 {
        seq![115u8, 54u8]
    } else if r == 23 {
        seq![115u8, 55u8]
    } else if r == 24 {
        seq![115u8, 56u8]
    } else if r == 25 {
        seq![115u8, 57u8]
    } else if r == 26 {
        seq![115u8, 49u8, 48u8]
    } else if r == 27 {
        seq![115u8, 49u8, 49u8]
    } else if r == 28 {
        seq![116u8, 51u8]
    } else if r == 29 {
        seq![116u8, 52u8]
    } else if r == 30 {
        seq![116u8, 53u8]
    } else {
        seq![116u8, 54u8]
    }
}

fn abi_bytes_exec(r: usize) -> (v: Vec<u8>)
    requires
        r < 32,
    ensures
        v@ == abi_bytes(r as int),
{
    if r == 0 {
        vec![122u8, 101u8, 114u8, 111u8]
    } else if r == 1 {
        vec![114u8, 97u8]
    } else if r == 2 {
        vec![115u8, 112u8]
    } else if r == 3 {
        vec![103u8, 112u8]
    } else if r == 4 {
        vec![116u8, 112u8]
    } else if r == 5 {
        vec![116u8, 48u8]
    } else if r == 6 {
        vec![116u8, 49u8]
    } else if r == 7 {
        vec![116u8, 50u8]
    } else if r == 8 {
        vec![115u8, 48u8]
    } else if r == 9 {
        vec![115u8, 49u8]
    } else if r == 10 {
        vec![97u8, 48u8]
    } else if r == 11 {
        vec![97u8, 49u8]
    } else if r == 12 {
        vec![97u8, 50u8]
    } else if r == 13 {
        vec![97u8, 51u8]
    } else if r == 14 {
        vec![97u8, 52u8]
    } else if r == 15 {
        vec![97u8, 53u8]
    } else if r == 16 {
        vec![97u8, 54u8]
    } else if r == 17 {
        vec![97u8, 55u8]
    } else if r == 18 {
        vec![115u8, 50u8]
    } else if r == 19 {
        vec![115u8, 51u8]
    } else if r == 20 {
        vec![115u8, 52u8]
    } else if r == 21 {
        vec![115u8, 53u8]
    } else if r == 22 {
        vec![115u8, 54u8]
    } else if r == 23 {
        vec![115u8, 55u8]
    } else if r == 24 {
        vec![115u8, 56u8]
    } else if r == 25 {
        vec![115u8, 57u8]
    } else if r == 26 {
        vec![115u8, 49u8, 48u8]
    } else if r == 27 {
        vec![115u8, 49u8, 49u8]
    } else if r == 28 {
        vec![116u8, 51u8]
    } else if r == 29 {
        vec![116u8, 52u8]
    } else if r == 30 {
        vec![116u8, 53u8]
    } else {
        vec![116u8, 54u8]
    }
}

/// The decimal digits of `r` (below 100).
pub open spec fn dec_bytes(r: int) -> Seq<u8> {
    if r < 10 {
        seq![(48 + r) as u8]
    } else {
        seq![(48 + r / 10) as u8, (48 + r % 10) as u8]
    }
}

fn dec_bytes_exec(r: usize) -> (v: Vec<u8>)
    requires
        r < 32,
    ensures
        v@ == dec_bytes(r as int),
{
    if r < 10 {
        vec![(48 + r) as u8]
    } else {
        vec![(48 + r / 10) as u8, (48 + r % 10) as u8]
    }
}

/// Whether `name` names register `r`: its ABI name, `x` followed by its number (as a
/// number is parsed), or its number in plain decimal.
pub open spec fn names_reg(name: Seq<u8>, r: int) -> bool {
    ||| name == abi_bytes(r)
    ||| (name.len() >= 1 && name[0] == 120 && parse_num(name.drop_first(), 10, usize::MAX as nat) == Some(r as nat))
    ||| name == dec_bytes(r)
}

/// The first register from `k` on that `name` names.
pub open spec fn find_reg(name: Seq<u8>, k: nat) -> Option<usize>
    decreases 32 - k,
{
    if k >= 32 {
        None
    } else if names_reg(name, k as int) {
        Some(k as usize)
    } else {
        find_reg(name, k + 1)
    }
}

/// The register that `name` names, if any.
pub fn parse_reg(name: &[u8]) -> (r: Option<usize>)
    ensures
        r == find_reg(name@, 0),
        r matches Some(i) ==> i < 32,
{
    let xval = if name.len() >= 1 && name[0] == 120 {
        parse_number(vstd::slice::slice_subrange(name, 1, name.len()), 10, usize::MAX as u64)
    } else {
        None
    };
    proof {
        if name@.len() >= 1 && name@[0] == 120 {
            assert(name@.subrange(1, name@.len() as int) =~= name@.drop_first());
        }
    }
    let mut i: usize = 0;
    while i < 32
        invariant
            i <= 32,
            find_reg(name@, i as nat) == find_reg(name@, 0),
            xval matches Some(v) ==> name@.len() >= 1 && name@[0] == 120 && parse_num(name@.drop_first(), 10, usize::MAX as nat) == Some(v as nat),
            xval is None ==> !(name@.len() >= 1 && name@[0] == 120 && parse_num(name@.drop_first(), 10, usize::MAX as nat) is Some),
        decreases 32 - i,
    {
        let a = abi_bytes_exec(i);
        let d = dec_bytes_exec(i);
        let by_x = match xval {
            Some(v) => v == i as u64,
            None => false,
        };
        if same_bytes(name, a.as_slice()) || by_x || same_bytes(name, d.as_slice()) {
            return Some(i);
        }
        i = i + 1;
    }
    None
}

// ===== Commands =====

pub open spec fn w_s() -> Seq<u8> {
    seq![115u8]
}

pub open spec fn w_r() -> Seq<u8> {
    seq![114u8]
}

pub open spec fn w_c() -> Seq<u8> {
    seq![99u8]
}

pub open spec fn w_b() -> Seq<u8> {
    seq![98u8]
}

pub open spec fn w_reg() -> Seq<u8> {
    seq![114u8, 101u8, 103u8]
}

pub open spec fn w_mem() -> Seq<u8> {
    seq![109u8, 101u8, 109u8]
}

pub open spec fn w_mem8() -> Seq<u8> {
    seq![109u8, 101u8, 109u8, 56u8]
}

pub open spec fn w_mem16() -> Seq<u8> {
    seq![109u8, 101u8, 109u8, 49u8, 54u8]
}

pub open spec fn w_mem32() -> Seq<u8> {
    seq![109u8, 101u8, 109u8, 51u8, 50u8]
}

pub open spec fn w_mem64() -> Seq<u8> {
    seq![109u8, 101u8, 109u8, 54u8, 52u8]
}

pub open spec fn w_csr() -> Seq<u8> {
    seq![99u8, 115u8, 114u8]
}

pub open spec fn w_reset() -> Seq<u8> {
    seq![114u8, 101u8, 115u8, 101u8, 116u8]
}

pub open spec fn w_h() -> Seq<u8> {
    seq![104u8]
}

pub open spec fn w_help() -> Seq<u8> {
    seq![104u8, 101u8, 108u8, 112u8]
}

pub open spec fn w_q() -> Seq<u8> {
    seq![113u8]
}

pub open spec fn w_quit() -> Seq<u8> {
    seq![113u8, 117u8, 105u8, 116u8]
}

/// What a debugger command asks the front end to do or show.
#[derive(Clone, Copy, PartialEq, Eq, Structural, Debug)]
pub enum DebugAction {
    Step,
    Run(u64),
    Continue,
    BreakpointSet(u64),
    BreakpointRemoved(u64),
    ShowRegs,
    ShowReg(usize),
    SetReg(usize, u64),
    BadValue,
    UnknownReg,
    MemUsage,
    MemDump { addr: u64, count: usize },
    MemRead { addr: u64, size: u64, value: u64 },
    BadAddress,
    Csr { addr: u64, value: u64 },
    CsrUsage,
    Reset,
    Help,
    Quit,
    Unknown,
}

/// The words after the command's first space, without white space at either end.
pub open spec fn rest_of(line: Seq<u8>) -> Seq<u8> {
    match tail(line) {
        Some(t) => trim(t),
        None => Seq::empty(),
    }
}

/// The first position of `a` in `s` at or after `k`.
pub open spec fn find_u64(s: Seq<u64>, a: u64, k: nat) -> Option<nat>
    decreases s.len() - k,
{
    if k >= s.len() {
        None
    } else if s[k as int] == a {
        Some(k)
    } else {
        find_u64(s, a, k + 1)
    }
}

/// A register value: hexadecimal after `0x` or `0X`, decimal otherwise.
pub open spec fn reg_value(vs: Seq<u8>) -> Option<nat> {
    if vs.len() >= 2 && vs[0] == 48 && (vs[1] == 120 || vs[1] == 88) {
        parse_num(vs.skip(2), 16, u64::MAX as nat)
    } else {
        parse_num(vs, 10, u64::MAX as nat)
    }
}

/// What a load of `size` bytes at `a` shows: the value, or 0 where the load faults.
pub open spec fn mem_value(b: BusView, a: u64, size: u64) -> u64 {
    if size == 1 {
        match b.read8(a) { Ok(v) => v as u64, Err(_) => 0 }
    } else if size == 2 {
        match b.read16(a) { Ok(v) => v as u64, Err(_) => 0 }
    } else if size == 4 {
        match b.read32(a) { Ok(v) => v as u64, Err(_) => 0 }
    } else {
        match b.read64(a) { Ok(v) => v, Err(_) => 0 }
    }
}

/// A hexadecimal address after any leading "0x".
pub open spec fn hex_addr(s: Seq<u8>) -> Option<nat> {
    parse_num(strip_0x(s), 16, u64::MAX as nat)
}

/// The command words.
#[derive(Clone, Copy, PartialEq, Eq, Structural, Debug)]
pub enum Verb {
    Step,
    Run,
    Continue,
    Break,
    Reg,
    Mem,
    /// `mem8`, `mem16`, `mem32`, `mem64`, with the size in bytes.
    MemN(u64),
    Csr,
    Reset,
    Help,
    Quit,
    Other,
}

/// The command word `v`: `s` or nothing, `r`, `c`, `b`, `reg`, `mem`, `mem8`..`mem64`,
/// `csr`, `reset`, `h` or `help`, `q` or `quit`.
pub open spec fn verb_of(v: Seq<u8>) -> Verb {
    if v == w_s() || v.len() == 0 {
        Verb::Step
    } else if v == w_r() {
        Verb::Run
    } else if v == w_c() {
        Verb::Continue
    } else if v == w_b() {
        Verb::Break
    } else if v == w_reg() {
        Verb::Reg
    } else if v == w_mem() {
        Verb::Mem
    } else if v == w_mem8() {
        Verb::MemN(1)
    } else if v == w_mem16() {
        Verb::MemN(2)
    } else if v == w_mem32() {
        Verb::MemN(4)
    } else if v == w_mem64() {
        Verb::MemN(8)
    } else if v == w_csr() {
        Verb::Csr
    } else if v == w_reset() {
        Verb::Reset
    } else if v == w_h() || v == w_help() {
        Verb::Help
    } else if v == w_q() || v == w_quit() {
        Verb::Quit
    } else {
        Verb::Other
    }
}

/// The action, the hart and the breakpoint list after the command `line` (the verb is the
/// part before the first space, the argument the rest without surrounding white space):
/// `s` or nothing steps; `r [n]` runs n steps (100 if n does not parse); `c` continues;
/// `b [addr]` toggles a breakpoint at the hexadecimal address (the pc if there is none or it
/// does not parse); `reg [r [v]]` shows all registers, shows one, or sets it; `mem addr [n]`
/// dumps n words (8 if n is missing or does not parse); `mem8`..`mem64 addr` read one value;
/// `csr addr` reads a CSR as M-mode; `reset` puts the hart back at `entry`; `h`/`help` and
/// `q`/`quit`; anything else is unknown.
pub open spec fn command_spec(c: CpuView, b: BusView, bps: Seq<u64>, entry: u64, line: Seq<u8>) -> (
    DebugAction,
    CpuView,
    Seq<u64>,
) {
    let verb = verb_of(head(line));
    let rest = rest_of(line);
    if verb == Verb::Step {
        (DebugAction::Step, c, bps)
    } else if verb == Verb::Run {
        (DebugAction::Run(match parse_num(rest, 10, u64::MAX as nat) { Some(n) => n as u64, None => 100 }), c, bps)
    } else if verb == Verb::Continue {
        (DebugAction::Continue, c, bps)
    } else if verb == Verb::Break {
        let addr: u64 = if rest.len() == 0 {
            c.pc
        } else {
            match hex_addr(rest) { Some(a) => a as u64, None => c.pc }
        };
        match find_u64(bps, addr, 0) {
            Some(k) => (DebugAction::BreakpointRemoved(addr), c, bps.remove(k as int)),
            None => (DebugAction::BreakpointSet(addr), c, bps.push(addr)),
        }
    } else if verb == Verb::Reg {
        let rname = head(rest);
        if rname.len() == 0 {
            (DebugAction::ShowRegs, c, bps)
        } else {
            match find_reg(rname, 0) {
                None => (DebugAction::UnknownReg, c, bps),
                Some(i) => {
                    let vs = rest_of(rest);
                    if vs.len() == 0 {
                        (DebugAction::ShowReg(i), c, bps)
                    } else {
                        match reg_value(vs) {
                            Some(v) => (
                                DebugAction::SetReg(i, v as u64),
                                CpuView { regs: c.regs.update(i as int, v as u64), ..c },
                                bps,
                            ),
                            None => (DebugAction::BadValue, c, bps),
                        }
                    }
                },
            }
        }
    } else if verb == Verb::Mem {
        let a_str = head(rest);
        if a_str.len() == 0 {
            (DebugAction::MemUsage, c, bps)
        } else {
            match hex_addr(a_str) {
                Some(a) => {
                    let count: usize = match tail(rest) {
                        Some(t) => match parse_num(t, 10, usize::MAX as nat) { Some(n) => n as usize, None => 8 },
                        None => 8,
                    };
                    (DebugAction::MemDump { addr: a as u64, count }, c, bps)
                },
                None => (DebugAction::BadAddress, c, bps),
            }
        }
    } else if verb is MemN {
        let size = verb->MemN_0;
        match hex_addr(rest) {
            Some(a) => (DebugAction::MemRead { addr: a as u64, size, value: mem_value(b, a as u64, size) }, c, bps),
            None => (DebugAction::BadAddress, c, bps),
        }
    } else if verb == Verb::Csr {
        match hex_addr(rest) {
            Some(a) => (DebugAction::Csr { addr: a as u64, value: c.csr.read((a as u64) as usize, Privilege::M) }, c, bps),
            None => (DebugAction::CsrUsage, c, bps),
        }
    } else if verb == Verb::Reset {
        (DebugAction::Reset, reset_view(entry), bps)
    } else if verb == Verb::Help {
        (DebugAction::Help, c, bps)
    } else if verb == Verb::Quit {
        (DebugAction::Quit, c, bps)
    } else {
        (DebugAction::Unknown, c, bps)
    }
}

fn verb_exec(v: &[u8]) -> (r: Verb)
    ensures
        r == verb_of(v@),
{
    let k_s = vec![115u8];
    assert(k_s@ =~= w_s());
    let is_s = same_bytes(v, k_s.as_slice());
    let k_r = vec![114u8];
    assert(k_r@ =~= w_r());
    let is_r = same_bytes(v, k_r.as_slice());
    let k_c = vec![99u8];
    assert(k_c@ =~= w_c());
    let is_c = same_bytes(v, k_c.as_slice());
    let k_b = vec![98u8];
    assert(k_b@ =~= w_b());
    let is_b = same_bytes(v, k_b.as_slice());
    let k_reg = vec![114u8, 101u8, 103u8];
    assert(k_reg@ =~= w_reg());
    let is_reg = same_bytes(v, k_reg.as_slice());
    let k_mem = vec![109u8, 101u8, 109u8];
    assert(k_mem@ =~= w_mem());
    let is_mem = same_bytes(v, k_mem.as_slice());
    let k_mem8 = vec![109u8, 101u8, 109u8, 56u8];
    assert(k_mem8@ =~= w_mem8());
    let is_mem8 = same_bytes(v, k_mem8.as_slice());
    let k_mem16 = vec![109u8, 101u8, 109u8, 49u8, 54u8];
    assert(k_mem16@ =~= w_mem16());
    let is_mem16 = same_bytes(v, k_mem16.as_slice());
    let k_mem32 = vec![109u8, 101u8, 109u8, 51u8, 50u8];
    assert(k_mem32@ =~= w_mem32());
    let is_mem32 = same_bytes(v, k_mem32.as_slice());
    let k_mem64 = vec![109u8, 101u8, 109u8, 54u8, 52u8];
    assert(k_mem64@ =~= w_mem64());
    let is_mem64 = same_bytes(v, k_mem64.as_slice());
    let k_csr = vec![99u8, 115u8, 114u8];
    assert(k_csr@ =~= w_csr());
    let is_csr = same_bytes(v, k_csr.as_slice());
    let k_reset = vec![114u8, 101u8, 115u8, 101u8, 116u8];
    assert(k_reset@ =~= w_reset());
    let is_reset = same_bytes(v, k_reset.as_slice());
    let k_h = vec![104u8];
    assert(k_h@ =~= w_h());
    let is_h = same_bytes(v, k_h.as_slice());
    let k_help = vec![104u8, 101u8, 108u8, 112u8];
    assert(k_help@ =~= w_help());
    let is_help = same_bytes(v, k_help.as_slice());
    let k_q = vec![113u8];
    assert(k_q@ =~= w_q());
    let is_q = same_bytes(v, k_q.as_slice());
    let k_quit = vec![113u8, 117u8, 105u8, 116u8];
    assert(k_quit@ =~= w_quit());
    let is_quit = same_bytes(v, k_quit.as_slice());
    if is_s || v.len() == 0 {
        Verb::Step
    } else if is_r {
        Verb::Run
    } else if is_c {
        Verb::Continue
    } else if is_b {
        Verb::Break
    } else if is_reg {
        Verb::Reg
    } else if is_mem {
        Verb::Mem
    } else if is_mem8 {
        Verb::MemN(1)
    } else if is_mem16 {
        Verb::MemN(2)
    } else if is_mem32 {
        Verb::MemN(4)
    } else if is_mem64 {
        Verb::MemN(8)
    } else if is_csr {
        Verb::Csr
    } else if is_reset {
        Verb::Reset
    } else if is_h || is_help {
        Verb::Help
    } else if is_q || is_quit {
        Verb::Quit
    } else {
        Verb::Other
    }
}

fn rest_bytes(line: &[u8]) -> (r: &[u8])
    ensures
        r@ == rest_of(line@),
{
    match split_space(line).1 {
        Some(t) => trim_bytes(t),
        None => {
            let e: &[u8] = &[];
            assert(e@ =~= Seq::<u8>::empty());
            e
        },
    }
}

fn hex_addr_exec(s: &[u8]) -> (r: Option<u64>)
    ensures
        r matches Some(a) ==> hex_addr(s@) == Some(a as nat),
        r is None ==> hex_addr(s@) is None,
{
    parse_number(strip_0x_bytes(s), 16, u64::MAX)
}

fn mem_value_exec(bus: &Bus, a: u64, size: u64) -> (v: u64)
    requires
        bus.wf(),
    ensures
        v == mem_value(bus@, a, size),
{
    if size == 1 {
        match bus.read8(a) { Ok(v) => v as u64, Err(_) => 0 }
    } else if size == 2 {
        match bus.read16(a) { Ok(v) => v as u64, Err(_) => 0 }
    } else if size == 4 {
        match bus.read32(a) { Ok(v) => v as u64, Err(_) => 0 }
    } else {
        match bus.read64(a) { Ok(v) => v, Err(_) => 0 }
    }
}

/// Removes the first occurrence of `addr` from `bps` (`true`), or appends it (`false`).
fn toggle_breakpoint(bps: &mut Vec<u64>, addr: u64) -> (removed: bool)
    ensures
        match find_u64(old(bps)@, addr, 0) {
            Some(k) => removed && final(bps)@ == old(bps)@.remove(k as int),
            None => !removed && final(bps)@ == old(bps)@.push(addr),
        },
{
    let mut k: usize = 0;
    while k < bps.len()
        invariant
            k <= bps@.len(),
            bps@ == old(bps)@,
            find_u64(bps@, addr, k as nat) == find_u64(bps@, addr, 0),
        decreases bps@.len() - k,
    {
        if bps[k] == addr {
            bps.remove(k);
            return true;
        }
        k = k + 1;
    }
    bps.push(addr);
    false
}

/// Carries out the debugger command `line` on the hart and the breakpoint list, and says
/// what the front end has to do or show.
pub fn debugger_command(cpu: &mut Cpu, bus: &Bus, bps: &mut Vec<u64>, initial_entry: u64, line: &[u8]) -> (r: DebugAction)
    requires
        bus.wf(),
    ensures
        (r, final(cpu)@, final(bps)@) == command_spec(old(cpu)@, bus@, old(bps)@, initial_entry, line@),
{
    let (word, _) = split_space(line);
    let verb = verb_exec(word);
    let rest = rest_bytes(line);
    if verb == Verb::Step {
        DebugAction::Step
    } else if verb == Verb::Run {
        DebugAction::Run(match parse_number(rest, 10, u64::MAX) { Some(n) => n, None => 100 })
    } else if verb == Verb::Continue {
        DebugAction::Continue
    } else if verb == Verb::Break {
        let addr = if rest.len() == 0 {
            cpu.pc
        } else {
            match hex_addr_exec(rest) { Some(a) => a, None => cpu.pc }
        };
        if toggle_breakpoint(bps, addr) {
            DebugAction::BreakpointRemoved(addr)
        } else {
            DebugAction::BreakpointSet(addr)
        }
    } else if verb == Verb::Reg {
        let (rname, _) = split_space(rest);
        if rname.len() == 0 {
            DebugAction::ShowRegs
        } else {
            match parse_reg(rname) {
                None => DebugAction::UnknownReg,
                Some(i) => {
                    let vs = rest_bytes(rest);
                    if vs.len() == 0 {
                        DebugAction::ShowReg(i)
                    } else {
                        let parsed = if vs.len() >= 2 && vs[0] == 48 && (vs[1] == 120 || vs[1] == 88) {
                            parse_number(vstd::slice::slice_subrange(vs, 2, vs.len()), 16, u64::MAX)
                        } else {
                            parse_number(vs, 10, u64::MAX)
                        };
                        proof {
                            if vs@.len() >= 2 {
                                assert(vs@.subrange(2, vs@.len() as int) =~= vs@.skip(2));
                            }
                        }
                        match parsed {
                            Some(v) => {
                                cpu.regs[i] = v;
                                proof {
                                    assert(cpu@.regs =~= old(cpu)@.regs.update(i as int, v));
                                }
                                DebugAction::SetReg(i, v)
                            },
                            None => DebugAction::BadValue,
                        }
                    }
                },
            }
        }
    } else if verb == Verb::Mem {
        let (a_str, count_str) = split_space(rest);
        if a_str.len() == 0 {
            DebugAction::MemUsage
        } else {
            match hex_addr_exec(a_str) {
                Some(a) => {
                    let count: usize = match count_str {
                        Some(t) => match parse_number(t, 10, usize::MAX as u64) { Some(n) => n as usize, None => 8 },
                        None => 8,
                    };
                    DebugAction::MemDump { addr: a, count }
                },
                None => DebugAction::BadAddress,
            }
        }
    } else if let Verb::MemN(size) = verb {
        match hex_addr_exec(rest) {
            Some(a) => DebugAction::MemRead { addr: a, size, value: mem_value_exec(bus, a, size) },
            None => DebugAction::BadAddress,
        }
    } else if verb == Verb::Csr {
        match hex_addr_exec(rest) {
            Some(a) => DebugAction::Csr { addr: a, value: cpu.csr.read(a as usize, Privilege::M) },
            None => DebugAction::CsrUsage,
        }
    } else if verb == Verb::Reset {
        *cpu = Cpu::new(initial_entry);
        DebugAction::Reset
    } else if verb == Verb::Help {
        DebugAction::Help
    } else if verb == Verb::Quit {
        DebugAction::Quit
    } else {
        DebugAction::Unknown
    }
}

} // verus!
