//! A SOCKS5 proxy's core: a byte ring buffer, a registry of event-loop
//! contexts and sources with versioned handles, and the SOCKS5 message
//! parsers and connection state machine, all with verified contracts.
use vstd::prelude::*;

pub mod circ;
pub mod log;
pub mod ringbuf;
pub mod slab;
pub mod socks;
pub mod ste;

verus! {
}
