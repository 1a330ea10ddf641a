//! Vaelorium Cloud: account key derivation, the wire protocol and the
//! decisions of the hosted storage backend.

pub mod crypto;
pub mod protocol;
