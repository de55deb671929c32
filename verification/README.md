# rstiny_core

The decision logic of a small AArch64 microkernel and its user-space
services, written in Verus and proved against its contracts.

- `task`: the kernel's ready ring, task table and system calls, the root
  image's segments and BootInfo record, the scheduler tick and the user loop.
- `init`: the service manager: per-service state, restart policy, the
  capabilities a service is spawned with, the supervision loop's reactions
  and the logger thread's message format.
- `fs`, `block`, `gpu`, `console`: the service protocols (names in message
  words, paged directory listings, client binding, sector reads, the
  framebuffer lease, DMA slots, console writes).
- `spawn_info`: the words a parent hands each child about where its
  capabilities lie.
- `shell`, `apps`, `boot`, `gui`: the shell's line editing and commands, the
  application manager, the root task's boot decisions and the desktop client.
- `logging`, `sync`, `num`, `wire`, `text`: shared helpers.

`app/` is a host front end that drives the shell and the log facade on a
terminal; `--disk <image>` reads a disk image as the block device and names
its file system, and `--events <file>` replays recorded input events to the
desktop. Everything it decides comes from the library.
