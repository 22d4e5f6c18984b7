//! A minimal client core for an S3-compatible object store.
//!
//! The crate holds the logic of such a client: SigV4-style request
//! signing (header canonicalization, canonical-request construction,
//! the derived-key chain), construction of signed list/head/put/delete
//! requests, interpretation of the raw HTTP responses into typed
//! results, and pagination of object listings.  The HTTP exchange
//! itself is left to the caller: every operation is split into a
//! request builder and a response interpreter, so that any transport
//! (or a test double) can carry the bytes.

pub mod bytes;
pub mod errors;
pub mod hexenc;
pub mod crypto;
pub mod headers;
pub mod signer;
pub mod scan;
pub mod config;
pub mod facade;
