//! Verified core of a metrics exporter for a fleet of game servers.
//!
//! For every configured server the exporter reports on-disk size, live
//! player counts obtained over the remote administration protocol, and
//! per-player lifetime statistics decoded from on-disk records, all
//! rendered into one exposition-format text document.  The surrounding
//! binary performs the file, network and HTTP work and hands this crate
//! plain bytes; everything that decides or computes is verified here.

pub mod aggregate;
pub mod config;
pub mod error;
pub mod expo;
pub mod json;
pub mod resolve;
pub mod stats;
pub mod status;
pub mod text;
