//! Rate-limited fax submission pipeline: a per-submitter daily throttle over a
//! registry of known submitters, the relay handshake that forwards an accepted
//! message to the printer side, and the deterministic compilation of a message
//! into an ordered printer-command job with hardware-fault handling.
//!
//! All I/O (HTTP serving, the relay network call, the physical printer
//! transport, loading the submitter list) lives outside this crate; the crate
//! works on plain values and is verified end to end.

pub mod clock;
pub mod gate;
pub mod message;
pub mod pipeline;
pub mod printer;
pub mod registry;
