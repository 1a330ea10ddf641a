//! The error of a sync cycle.

use vstd::prelude::*;

use crate::backend::BackendError;
use crate::backend::error_view;
use crate::crypto::CryptoError;
use crate::text::{cat, decimal, decimal_chars, string_of};

verus! {

/// Why a sync step failed. Errors of outside libraries (I/O, JSON, the
/// database) are carried as their text.
#[derive(Debug)]
pub enum SyncError {
    Backend(BackendError),
    Crypto(CryptoError),
    Journal(String),
    Io(String),
    Serde(String),
    Sqlx(String),
    /// The op was written by a newer client than this one.
    SchemaVersionMismatch { op: u32, client: u32 },
}

impl SyncError {
    /// The error as text.
    pub fn describe(&self) -> (r: String)
        ensures
            r@ == match self {
                SyncError::Backend(e) => "backend error: "@ + crate::backend::backend_error_text(error_view(*e)),
                SyncError::Crypto(e) => "crypto error: "@ + crate::crypto::crypto_error_text(*e),
                SyncError::Journal(m) => "journal error: "@ + m@,
                SyncError::Io(m) => "io error: "@ + m@,
                SyncError::Serde(m) => "serialization error: "@ + m@,
                SyncError::Sqlx(m) => "database error: "@ + m@,
                SyncError::SchemaVersionMismatch { op, client } => "schema version mismatch: op was emitted at v"@
                    + decimal(*op as nat) + ", this client is v"@ + decimal(*client as nat),
            },
    {
        match self {
            SyncError::Backend(e) => {
                let d = e.describe();
                cat("backend error: ", d.as_str())
            },
            SyncError::Crypto(e) => {
                let d = e.describe();
                cat("crypto error: ", d.as_str())
            },
            SyncError::Journal(m) => cat("journal error: ", m.as_str()),
            SyncError::Io(m) => cat("io error: ", m.as_str()),
            SyncError::Serde(m) => cat("serialization error: ", m.as_str()),
            SyncError::Sqlx(m) => cat("database error: ", m.as_str()),
            SyncError::SchemaVersionMismatch { op, client } => {
                let o = string_of(&decimal_chars(*op as u64));
                let c = string_of(&decimal_chars(*client as u64));
                let a = cat("schema version mismatch: op was emitted at v", o.as_str());
                let b = cat(a.as_str(), ", this client is v");
                cat(b.as_str(), c.as_str())
            },
        }
    }
}

} // verus!
