//! Client-side synchronization engine for a shielded ledger with two
//! parallel anonymity pools.
//!
//! The engine consumes compact blocks over a half-open height range
//! `[start, end)` and performs two coupled jobs: trial decryption of every
//! compact output against a set of incoming viewing keys, and incremental
//! synchronization of the per-pool note-commitment trees, verified against
//! the server's frontier at the end of the range.
//!
//! Network transport, logging, and viewing-key decoding are outside the
//! engine; callers hand it plain values (blocks, frontier bytes, key bytes)
//! and receive plain values back.
//!
//! One path is reduced in this build: memo recovery. Each hit carries the
//! hash of its transaction, and the driver fetches the full transaction —
//! but decrypting the full ciphertext needs the ledger's transaction
//! parser, and no version of that crate coexists with the commitment-tree
//! crates in use here. The engine still judges a recovery outcome
//! (`decrypt::check_memo`); producing one is left to a build that can link
//! the parser.

use vstd::prelude::*;

pub mod compact;
pub mod crypto;
pub mod decrypt;
pub mod encoding;
pub mod extract;
pub mod frontier;
pub mod params;
pub mod session;
pub mod stream;
pub mod tree;

verus! {

/// The failures the engine can surface, by kind.
#[derive(Debug, Clone, PartialEq, Eq)]
pub enum SyncError {
    /// The server returned a permanent failure, or the retry budget for
    /// transient transport failures was exhausted.
    TransportFatal,
    /// Wire validation of a compact record failed: a field had the wrong
    /// length or a scalar was not canonical.
    MalformedCompactRecord,
    /// No frontier was available for the requested bootstrap height.
    MissingFrontier,
    /// The computed tree root diverged from the root the server reported.
    RootMismatch { expected: Vec<u8>, actual: Vec<u8> },
    /// An internal tree invariant was broken (position mismatch, shard
    /// splice failure, or store error).
    TreeInvariantBroken,
    /// Full-ciphertext decryption of a hit did not succeed; logged per hit.
    MemoDecryptFailure,
    /// The configuration was rejected at entry (unknown name, impossible
    /// range).
    ConfigInvalid,
    /// The root could not be checked because the server returned no
    /// frontier at the end height.
    RootUnverifiable,
}

impl SyncError {
    /// A short stable label for the error kind, for logs and messages.
    pub fn label(&self) -> (r: String)
        ensures
            r@.len() > 0,
    {
        let s = match self {
            SyncError::TransportFatal => "transport fatal",
            SyncError::MalformedCompactRecord => "malformed compact record",
            SyncError::MissingFrontier => "missing frontier",
            SyncError::RootMismatch { .. } => "root mismatch",
            SyncError::TreeInvariantBroken => "tree invariant broken",
            SyncError::MemoDecryptFailure => "memo decrypt failure",
            SyncError::ConfigInvalid => "config invalid",
            SyncError::RootUnverifiable => "root unverifiable",
        };
        proof {
            reveal_strlit("transport fatal");
            reveal_strlit("malformed compact record");
            reveal_strlit("missing frontier");
            reveal_strlit("root mismatch");
            reveal_strlit("tree invariant broken");
            reveal_strlit("memo decrypt failure");
            reveal_strlit("config invalid");
            reveal_strlit("root unverifiable");
        }
        s.to_string()
    }
}

} // verus!
