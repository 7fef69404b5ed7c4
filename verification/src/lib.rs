//! Hardware-control and entitlement backend for a desktop laser engraver.
//!
//! Two independent subsystems: a serial command session (connection
//! lifecycle, exclusive-access discipline, command framing) and a license
//! entitlement manager (key validation, hardware binding, tier-gated
//! feature checks). Persistence and device I/O are performed by the
//! surrounding application; everything that decides or computes lives
//! here, with verified contracts.

pub mod hashing;
pub mod licensing;
pub mod serial;
