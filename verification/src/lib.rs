//! A download-verify-extract library for archive vault sites.
//!
//! The library turns an unreliable network-and-filesystem process into a
//! state machine with clear idempotence and self-healing guarantees.  Page
//! metadata extraction, archive checksum inspection, transfer bookkeeping
//! and the verification controller all live here; the surrounding binary
//! only performs the I/O that the controller asks for.

pub mod controller;
pub mod filename;
pub mod inspect;
pub mod links;
pub mod page;
pub mod text;
pub mod transfer;
