//! The guest kernel's interactive shell and its boot-time address space: line editing,
//! command words, and the identity maps of the kernel image and the devices.
use vstd::prelude::*;
use crate::debugger::{trim, trim_bytes};
use crate::kernel::allocator::{AllocView, PageAllocator, PAGE_SIZE};
use crate::kernel::paging::{create_ok, map_spec, PageTable, READ_WRITE, READ_WRITE_EXECUTE};
use crate::memory::Memory;

verus! {

/// The longest command line the shell keeps; further bytes are echoed but dropped.
pub const LINE_MAX: usize = 64;

/// What one console read means for the shell.
#[derive(Clone, Copy, PartialEq, Eq, Structural, Debug)]
pub enum ShellEvent {
    /// No byte was available.
    Idle,
    /// Echo this byte.
    Echo(u8),
    /// Carriage return or line feed: echo a newline, run the line if it is not empty, and
    /// start a new one.
    EndOfLine,
}

/// Takes one console read `c` into the line being typed.
pub fn shell_step(line: &mut Vec<u8>, c: Option<u8>) -> (r: ShellEvent)
    requires
        old(line)@.len() <= LINE_MAX,
    ensures
        final(line)@.len() <= LINE_MAX,
        match c {
            None => r == ShellEvent::Idle && final(line)@ == old(line)@,
            Some(b) => if b == 13 || b == 10 {
                r == ShellEvent::EndOfLine && final(line)@ == old(line)@
            } else {
                r == ShellEvent::Echo(b) && final(line)@ == if old(line)@.len() < LINE_MAX {
                    old(line)@.push(b)
                } else {
                    old(line)@
                }
            },
        },
{
    match c {
        None => ShellEvent::Idle,
        Some(b) => {
            if b == 13 || b == 10 {
                ShellEvent::EndOfLine
            } else {
                if line.len() < LINE_MAX {
                    line.push(b);
                }
                ShellEvent::Echo(b)
            }
        },
    }
}

/// The shell's commands.
#[derive(Clone, Copy, PartialEq, Eq, Structural, Debug)]
pub enum Command {
    Help,
    Info,
    Uptime,
    Ls,
    Alloc,
    Reboot,
    Panic,
    Unknown,
}

pub open spec fn word_help() -> Seq<u8> {
    seq![104u8, 101u8, 108u8, 112u8]
}

pub open spec fn word_info() -> Seq<u8> {
    seq![105u8, 110u8, 102u8, 111u8]
}

pub open spec fn word_uptime() -> Seq<u8> {
    seq![117u8, 112u8, 116u8, 105u8, 109u8, 101u8]
}

pub open spec fn word_ls() -> Seq<u8> {
    seq![108u8, 115u8]
}

pub open spec fn word_alloc() -> Seq<u8> {
    seq![97u8, 108u8, 108u8, 111u8, 99u8]
}

pub open spec fn word_reboot() -> Seq<u8> {
    seq![114u8, 101u8, 98u8, 111u8, 111u8, 116u8]
}

pub open spec fn word_panic() -> Seq<u8> {
    seq![112u8, 97u8, 110u8, 105u8, 99u8]
}

/// The command a line names, once white space at either end is removed.
pub open spec fn command_of(line: Seq<u8>) -> Command {
    let t = trim(line);
    if t == word_help() {
        Command::Help
    } else if t == word_info() {
        Command::Info
    } else if t == word_uptime() {
        Command::Uptime
    } else if t == word_ls() {
        Command::Ls
    } else if t == word_alloc() {
        Command::Alloc
    } else if t == word_reboot() {
        Command::Reboot
    } else if t == word_panic() {
        Command::Panic
    } else {
        Command::Unknown
    }
}

fn same(a: &[u8], b: &[u8]) -> (r: bool)
    ensures
        r == (a@ == b@),
{
    if a.len() != b.len() {
        return false;
    }
    let mut k: usize = 0;
    while k < a.len()
        invariant
            a@.len() == b@.len(),
            k <= a@.len(),
            forall|t: int| 0 <= t < k ==> a@[t] == b@[t],
        decreases a@.len() - k,
    {
        if a[k] != b[k] {
            return false;
        }
        k = k + 1;
    }
    assert(a@ =~= b@);
    true
}

/// The command that the line `cmd` names.
pub fn shell_command(cmd: &[u8]) -> (r: Command)
    ensures
        r == command_of(cmd@),
{
    let t = trim_bytes(cmd);
    let k_help = vec![104u8, 101u8, 108u8, 112u8];
    assert(k_help@ =~= word_help());
    let is_help = same(t, k_help.as_slice());
    let k_info = vec![105u8, 110u8, 102u8, 111u8];
    assert(k_info@ =~= word_info());
    let is_info = same(t, k_info.as_slice());
    let k_uptime = vec![117u8, 112u8, 116u8, 105u8, 109u8, 101u8];
    assert(k_uptime@ =~= word_uptime());
    let is_uptime = same(t, k_uptime.as_slice());
    let k_ls = vec![108u8, 115u8];
    assert(k_ls@ =~= word_ls());
    let is_ls = same(t, k_ls.as_slice());
    let k_alloc = vec![97u8, 108u8, 108u8, 111u8, 99u8];
    assert(k_alloc@ =~= word_alloc());
    let is_alloc = same(t, k_alloc.as_slice());
    let k_reboot = vec![114u8, 101u8, 98u8, 111u8, 111u8, 116u8];
    assert(k_reboot@ =~= word_reboot());
    let is_reboot = same(t, k_reboot.as_slice());
    let k_panic = vec![112u8, 97u8, 110u8, 105u8, 99u8];
    assert(k_panic@ =~= word_panic());
    let is_panic = same(t, k_panic.as_slice());
    if is_help {
        Command::Help
    } else if is_info {
        Command::Info
    } else if is_uptime {
        Command::Uptime
    } else if is_ls {
        Command::Ls
    } else if is_alloc {
        Command::Alloc
    } else if is_reboot {
        Command::Reboot
    } else if is_panic {
        Command::Panic
    } else {
        Command::Unknown
    }
}

// ===== Boot-time maps =====

pub const KERNEL_START: usize = 0x8020_0000;

/// The identity maps the kernel makes at boot: each page from KERNEL_START up to
/// `kernel_end`, readable, writable and executable; then the UART, PLIC, CLINT and virtio
/// pages, readable and writable.
pub open spec fn kernel_maps(kernel_end: usize) -> Seq<(usize, u64)> {
    let n: nat = if kernel_end > KERNEL_START { ((kernel_end - KERNEL_START + 4095) / 4096) as nat } else { 0 };
    Seq::new(n, |k: int| ((KERNEL_START + 4096 * k) as usize, READ_WRITE_EXECUTE)) + seq![
        (0x1000_0000usize, READ_WRITE),
        (0x0C00_0000usize, READ_WRITE),
        (0x0200_0000usize, READ_WRITE),
        (0x1000_1000usize, READ_WRITE),
    ]
}

/// Memory and allocator after mapping each `(vaddr, flags)` of `maps` to itself, in order;
/// a map that fails leaves what its walk built.
pub open spec fn map_all(m: Seq<u8>, a: AllocView, root: usize, maps: Seq<(usize, u64)>) -> (Seq<u8>, AllocView)
    decreases maps.len(),
{
    if maps.len() == 0 {
        (m, a)
    } else {
        let (m1, a1) = map_all(m, a, root, maps.drop_last());
        let (v, f) = maps.last();
        let r = map_spec(m1, a1, root, v, v, f);
        (r.0, r.1)
    }
}

/// Every table each of the maps in turn reads or writes lies in DRAM.
pub open spec fn maps_ok(m: Seq<u8>, a: AllocView, root: usize, maps: Seq<(usize, u64)>) -> bool
    decreases maps.len(),
{
    if maps.len() == 0 {
        true
    } else {
        &&& maps_ok(m, a, root, maps.drop_last())
        &&& create_ok(map_all(m, a, root, maps.drop_last()).0, map_all(m, a, root, maps.drop_last()).1, root, maps.last().0)
    }
}

proof fn lemma_maps_ok_prefix(m: Seq<u8>, a: AllocView, root: usize, maps: Seq<(usize, u64)>, i: int)
    requires
        0 <= i <= maps.len(),
        maps_ok(m, a, root, maps),
    ensures
        maps_ok(m, a, root, maps.take(i)),
    decreases maps.len(),
{
    if i < maps.len() {
        assert(maps.drop_last().take(i) =~= maps.take(i));
        lemma_maps_ok_prefix(m, a, root, maps.drop_last(), i);
    } else {
        assert(maps.take(i) =~= maps);
    }
}

/// Maps the kernel image and the devices to themselves, as at boot.
pub fn map_kernel(pt: &mut PageTable, mem: &mut Memory, alloc: &mut PageAllocator, kernel_end: usize)
    requires
        old(mem).wf(),
        old(alloc).wf(),
        maps_ok(old(mem)@, old(alloc)@, old(pt)@, kernel_maps(kernel_end)),
    ensures
        final(pt)@ == old(pt)@,
        final(mem).wf(),
        final(alloc).wf(),
        (final(mem)@, final(alloc)@) == map_all(old(mem)@, old(alloc)@, old(pt)@, kernel_maps(kernel_end)),
{
    let ghost maps = kernel_maps(kernel_end);
    let ghost m0 = mem@;
    let ghost a0 = alloc@;
    let ghost root = pt@;
    let ghost n: nat = if kernel_end > KERNEL_START { ((kernel_end - KERNEL_START + 4095) / 4096) as nat } else { 0 };
    let nn: usize = if kernel_end > KERNEL_START {
        (kernel_end - KERNEL_START) / 4096 + if (kernel_end - KERNEL_START) % 4096 != 0 { 1 } else { 0 }
    } else {
        0
    };
    let mut k: usize = 0;
    assert(maps.take(0) =~= Seq::<(usize, u64)>::empty());
    while k < nn
        invariant
            maps == kernel_maps(kernel_end),
            maps.len() == n + 4,
            n == (if kernel_end > KERNEL_START { ((kernel_end - KERNEL_START + 4095) / 4096) as nat } else { 0 }),
            nn == n,
            k <= n,
            pt@ == root,
            mem.wf(),
            alloc.wf(),
            maps_ok(m0, a0, root, maps),
            (mem@, alloc@) == map_all(m0, a0, root, maps.take(k as int)),
        decreases nn - k,
    {
        proof {
            assert(KERNEL_START + 4096 * k < kernel_end);
        }
        let vaddr = KERNEL_START + 4096 * k;
        proof {
            lemma_maps_ok_prefix(m0, a0, root, maps, k + 1);
            assert(maps.take(k + 1).drop_last() =~= maps.take(k as int));
            assert(maps[k as int] == (vaddr, READ_WRITE_EXECUTE));
        }
        pt.map(mem, alloc, vaddr, vaddr, READ_WRITE_EXECUTE);
        k = k + 1;
    }
    let devs: [(usize, u64); 4] = [
        (0x1000_0000, READ_WRITE),
        (0x0C00_0000, READ_WRITE),
        (0x0200_0000, READ_WRITE),
        (0x1000_1000, READ_WRITE),
    ];
    let mut j: usize = 0;
    while j < 4
        invariant
            maps == kernel_maps(kernel_end),
            maps.len() == n + 4,
            k == n,
            j <= 4,
            forall|t: int| 0 <= t < 4 ==> maps[n + t] == devs@[t],
            pt@ == root,
            mem.wf(),
            alloc.wf(),
            maps_ok(m0, a0, root, maps),
            (mem@, alloc@) == map_all(m0, a0, root, maps.take(k + j)),
        decreases 4 - j,
    {
        let (v, f) = devs[j];
        proof {
            lemma_maps_ok_prefix(m0, a0, root, maps, k + j + 1);
            assert(maps.take(k + j + 1).drop_last() =~= maps.take(k + j));
        }
        pt.map(mem, alloc, v, v, f);
        j = j + 1;
    }
    assert(maps.take(k + 4) =~= maps);
}

} // verus!
