# xsk-core

The rings and queues of AF_XDP sockets, written in Rust and verified with
Verus.

- `src/` is the library. Every function in it has a contract that Verus
  proves. `slots.rs` has the arithmetic of ring positions, `ring.rs` the
  producer and consumer rings, `umem/` the frame descriptors, the fill and
  completion queues and the UMEM region, and `socket/` the receive queue.
- `app/` binds the library to the kernel: the memory that libxdp maps, the
  loads and stores of shared positions, and `poll`. Building it needs
  libxdp, libbpf and libelf.
- `tests/` runs the library on rings held in ordinary memory.
