//! Logic of the guest kernel that runs on the machine: its page allocator and its small
//! file system's bookkeeping, and its page table.
pub mod allocator;
pub mod console;
pub mod fs;
pub mod paging;
pub mod process;
pub mod shell;
pub mod trap;
