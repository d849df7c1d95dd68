//! The guest kernel's processes and its tick count: process ids handed out in order, and the
//! uptime that the timer ticks give.
use vstd::prelude::*;

verus! {

/// A process, known by its id.
pub struct Process {
    pub id: u64,
}

/// The first process id handed out.
pub const FIRST_PID: u64 = 1;

/// Hands out the id in `counter` and counts on to the next one.
pub fn next_pid(counter: &mut u64) -> (pid: u64)
    requires
        *old(counter) < u64::MAX,
    ensures
        pid == *old(counter),
        *final(counter) == *old(counter) + 1,
{
    let pid = *counter;
    *counter = *counter + 1;
    pid
}

/// The tick count after one more timer interrupt (wrapping).
pub fn tick(ticks: u64) -> (r: u64)
    ensures
        r == ticks.wrapping_add(1),
{
    ticks.wrapping_add(1)
}

/// The uptime in milliseconds after `ticks` timer interrupts, one every 10 ms.
pub fn uptime_ms(ticks: u64) -> (r: u64)
    requires
        ticks * 10 <= u64::MAX,
    ensures
        r == ticks * 10,
{
    ticks * 10
}

} // verus!
