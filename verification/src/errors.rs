//! The closed result taxonomy of the client.
//!
//! Every operation of the facade returns either its success value or
//! exactly one of these kinds; raw provider errors are never handed
//! through.  The kinds that carry a status code and a body excerpt keep
//! enough structure to reconstruct a useful message without depending
//! on any particular provider's formatting.

use vstd::prelude::*;

verus! {

/// The configuration fault behind a `ConfigError`.
#[derive(Debug, Clone, Copy, PartialEq, Eq, Structural)]
pub enum ConfigFault {
    /// The mandatory access key id is absent.
    MissingAccessKeyId,
    /// The mandatory secret access key is absent.
    MissingSecretAccessKey,
    /// The mandatory bucket name is absent.
    MissingBucket,
    /// The mandatory region is absent.
    MissingRegion,
    /// A field is present but holds bytes that cannot stand in a
    /// request (an empty bucket, a control byte in a host name).
    InvalidField,
}

/// Outcome of a client operation.
///
/// `Success` stands for an operation that returns no value (delete).
/// The failure kinds are closed: configuration, signing, transport,
/// a legitimate not-found, and the per-operation provider refusals,
/// each carrying the HTTP status and a truncated body excerpt.
#[derive(Debug, Clone)]
pub enum S3Result {
    /// The operation completed and has no value to return.
    Success,
    /// Mandatory configuration is absent or unusable; fatal at startup.
    ConfigError(ConfigFault),
    /// A request could not be signed; the payload is the index of the
    /// first offending header in the draft.
    SigningError(usize),
    /// The HTTP exchange itself failed (connection, timeout, TLS);
    /// never used for a non-2xx status that the server did return.
    TransportError(String),
    /// A local file could not be opened for upload.
    FileOpenFail(String),
    /// The object does not exist: the legitimate miss of a head lookup.
    NotFound,
    /// A head request was refused with an unexpected status.
    HeadError { status: u16, body_excerpt: Vec<u8> },
    /// An upload was refused.
    UploadFailure { status: u16, body_excerpt: Vec<u8> },
    /// A delete was refused.
    DeleteFailure { status: u16, body_excerpt: Vec<u8> },
    /// A page of a listing was refused.
    ListFailure { status: u16, body_excerpt: Vec<u8> },
}

} // verus!
