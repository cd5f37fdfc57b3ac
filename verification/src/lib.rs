//! Configuration overlay engine for a local proxy-daemon installation.
//!
//! The core of the tool is verified: the settings store ([`config`],
//! [`store`]) loads, validates and writes the tool's own settings file,
//! and the overlay engine ([`overlay`]) merges the managed override fields
//! into the daemon's downloaded configuration document while keeping every
//! unrecognized line byte for byte. The laws that govern these operations —
//! save/load and overlay round trips, preservation of unrecognized content,
//! idempotence — are stated and proved in [`laws`] and beside the code.
//!
//! Texts are handled as UTF-8 byte strings (`Vec<u8>`); the side-effecting
//! shell around this library does the file and network I/O.

pub mod bytes;
pub mod config;
pub mod laws;
pub mod lines;
pub mod lit;
pub mod num;
pub mod overlay;
pub mod store;
pub mod utils;
