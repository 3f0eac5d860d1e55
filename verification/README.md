# kernel

The core of a POSIX-oriented x86-64 framekernel, written in Verus: every
function under `src/` carries a contract that Verus proves.

## Layout

- `src/abi.rs` — system-call numbers, errno values and flag bits.
- `src/arch/` — descriptor tables (GDT, TSS, IDT), register frames and the
  stacks built from them, page-table entry encoding and the user-access walk,
  the interval timer and interrupt-controller programming, `syscall` MSRs.
- `src/boot/` — the boot protocol records and the selection of boot modules.
- `src/drivers/` — the serial receive ring and the framebuffer console state.
- `src/mm/` — the physical frame bitmap, the linked-list heap, copy-on-write
  reference counts, user-pointer checks and per-process memory regions.
- `src/services/` — processes and credentials, signals, scheduling, the audit
  journal and snapshots, system metrics, the terminal line discipline, ELF
  loading and the initial user stack, and `posix/`: the system-call layer
  (decoding, file-system, memory, process and system calls).
- `src/vfs/` — names and paths, the in-memory filesystem, open file
  descriptions, pipes, epoll, device and `/proc` files, tar unpacking.
- `tests/` — tests on concrete values.
- `app/` — the kernel image around the core: boot-protocol memory, port and
  register access, page-table writes, user-memory copies, spin locks, the
  async executor and the system-call entry loop.
