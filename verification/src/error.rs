//! The error taxonomy of the scrape pipeline.
//!
//! Per-player errors are recovered inside the player loop, per-phase
//! errors at the server boundary; none of them aborts a scrape.

use vstd::prelude::*;

verus! {

/// Everything that can go wrong while scraping one server.
#[derive(Debug, Clone, Copy, PartialEq, Eq, Structural)]
pub enum ScrapeError {
    /// Walking the server installation for its size failed.
    DirectoryWalkFailed,
    /// The remote administration endpoint could not be reached or
    /// refused the credential.
    ProtocolConnectFailed,
    /// The connection failed while the status command was in flight.
    ProtocolCommandFailed,
    /// The status reply did not match the expected wording.
    ResponseUnparseable,
    /// The name lookup call failed on the network.
    LookupFailed,
    /// The name lookup returned zero name records.
    LookupEmpty,
    /// The name lookup reply did not parse.
    LookupMalformed,
    /// A player record held malformed structured data.
    DecodeFailed,
    /// A player record parsed but lacked a required envelope field.
    SchemaMismatch,
    /// A player record file (or the record directory) could not be read.
    RecordIOFailed,
}

} // verus!
