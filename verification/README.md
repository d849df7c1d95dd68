# riscv_core

A small RV64IMA machine, with the logic of a guest kernel that runs on it, written in Verus:
every function under `src/` carries a contract, and Verus proves each one.

## Layout

- `src/cpu/`: instruction decoding, execution (including Sv39 address lookup for loads,
  stores and fetches), the CSR file, and the hart's step.
- `src/traps/`: trap causes and the choice of the pending interrupt.
- `src/memory.rs`, `src/bus.rs`, `src/mmu.rs`: DRAM and the physical address map.
- `src/devices/`, `src/uart.rs`, `src/virtio.rs`: CLINT, PLIC, 16550 UART and the virtio
  block device.
- `src/sbi.rs`: the firmware calls that S-mode software makes.
- `src/dtb.rs`: the flattened device tree handed to an S-mode kernel.
- `src/vm.rs`, `src/emulator.rs`: loading ELF files and flat binaries, booting, and running
  the machine with its devices.
- `src/kernel/`: the guest kernel's page allocator, Sv39 page table, file system, trap
  dispatch and system calls, firmware calls and console, and its shell with the boot-time
  identity maps.
- `src/debugger.rs`: the interactive debugger's commands.
- `src/disas.rs`: the format strings that describe how instructions are printed.
- `src/laws.rs`: properties that span several functions, stated and proved as lemmas.
- `tests/`: tests on concrete values.
- `app/`: the command-line front end (file I/O, the terminal side of the debugger) and the
  browser front end; neither is verified.
