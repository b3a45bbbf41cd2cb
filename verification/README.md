# ste_proxy

A small SOCKS5 proxy built on a single-threaded event loop ("ste").

- `src/` is the library, verified with Verus:
  - `ringbuf.rs`: `RingByteBuffer`, a fixed ring of 8192 bytes with read and write cursors.
  - `slab.rs`: versioned slots over `ochenslab::OchenSlab`; a handle (slot index and
    sequence number) reaches its slot only while the slot holds what was stored under it.
  - `ste.rs`: `Ste`, the registry of contexts and event sources, event tokens, and routing
    of an event to its context.
  - `socks.rs`: SOCKS5 greeting and request parsers, socket readiness bookkeeping, and the
    per-connection protocol state machine over `circbuf::CircBuf` buffers.
  - `circ.rs`: the contracts of the `circbuf` calls the library makes.
  - `log.rs`: the log level filter.
- `app/` is the program: the mio poll, sockets, DNS, logging output and `main`.
- `tests/` holds the library's tests.
