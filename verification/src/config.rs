//! Endpoint configuration and its validation.
//!
//! Configuration is loaded once at startup by an outside collaborator
//! and handed in as optional fields; validation demands the four
//! mandatory fields and rejects bytes that could not stand in a
//! request.  Absence is fatal (`ConfigError`), not recoverable here.

use vstd::prelude::*;

use crate::errors::{ConfigFault, S3Result};
use crate::signer::Credentials;

verus! {

/// Where requests go: a host, a region, and whether the bucket is
/// addressed in the path (an override host) or as a subdomain.
#[derive(Debug, Clone)]
pub struct Endpoint {
    pub host: Vec<u8>,
    pub region: Vec<u8>,
    pub use_path_style: bool,
}

/// The raw configuration handed in by the loader, fields still
/// optional.
#[derive(Debug, Clone)]
pub struct ConfigInput {
    pub access_key_id: Option<Vec<u8>>,
    pub secret_access_key: Option<Vec<u8>>,
    pub bucket: Option<Vec<u8>>,
    pub region: Option<Vec<u8>>,
    pub endpoint: Option<Vec<u8>>,
}

/// A validated configuration: credentials, endpoint, bucket.
#[derive(Debug, Clone)]
pub struct StorageConfig {
    pub credentials: Credentials,
    pub endpoint: Endpoint,
    pub bucket: Vec<u8>,
}

/// Printable ASCII with no blanks: bytes that can stand in a host
/// name, a region, a credential or a header value without quoting.
pub open spec fn field_bytes_ok(s: Seq<u8>) -> bool {
    forall|i: int| 0 <= i < s.len() ==> 33 <= #[trigger] s[i] <= 126
}

/// A usable host or region: nonempty printable ASCII.
pub open spec fn name_ok(s: Seq<u8>) -> bool {
    s.len() > 0 && field_bytes_ok(s)
}

/// A usable bucket name: nonempty printable ASCII without `/`.
pub open spec fn bucket_ok(s: Seq<u8>) -> bool {
    s.len() > 0 && forall|i: int| 0 <= i < s.len() ==> 33 <= #[trigger] s[i] <= 126 && s[i] != 47
}

/// A usable credential set: nonempty printable key pair, printable
/// token when one is held.
pub open spec fn credentials_ok(c: Credentials) -> bool {
    name_ok(c.access_key_id@) && name_ok(c.secret_access_key@) && match c.session_token {
        Some(t) => name_ok(t@),
        None => true,
    }
}

/// A usable endpoint: nonempty printable host and region.
pub open spec fn endpoint_ok(e: Endpoint) -> bool {
    name_ok(e.host@) && name_ok(e.region@)
}

/// `s3.` ++ region ++ `.amazonaws.com`: the host used when no
/// override endpoint is configured.
pub open spec fn spec_default_host(region: Seq<u8>) -> Seq<u8> {
    seq![115u8, 51, 46] + region + seq![46u8, 97, 109, 97, 122, 111, 110, 97, 119, 115, 46, 99, 111, 109]
}

/// The fault a raw configuration would be rejected with, if any:
/// the first absent mandatory field, else any unusable bytes.
pub open spec fn spec_config_fault(input: ConfigInput) -> Option<ConfigFault> {
    if input.access_key_id is None {
        Some(ConfigFault::MissingAccessKeyId)
    } else if input.secret_access_key is None {
        Some(ConfigFault::MissingSecretAccessKey)
    } else if input.bucket is None {
        Some(ConfigFault::MissingBucket)
    } else if input.region is None {
        Some(ConfigFault::MissingRegion)
    } else if !(name_ok(input.access_key_id->0@) && name_ok(input.secret_access_key->0@)
        && bucket_ok(input.bucket->0@) && name_ok(input.region->0@) && match input.endpoint {
        Some(e) => name_ok(e@),
        None => true,
    }) {
        Some(ConfigFault::InvalidField)
    } else {
        None
    }
}

fn check_name(v: &Vec<u8>) -> (r: bool)
    ensures
        r == name_ok(v@),
{
    if v.len() == 0 {
        return false;
    }
    let n = v.len();
    for i in 0..n
        invariant
            n == v@.len(),
            forall|j: int| 0 <= j < i ==> 33 <= #[trigger] v@[j] <= 126,
    {
        let b = v[i];
        if b < 33 || b > 126 {
            return false;
        }
    }
    true
}

fn check_bucket(v: &Vec<u8>) -> (r: bool)
    ensures
        r == bucket_ok(v@),
{
    if v.len() == 0 {
        return false;
    }
    let n = v.len();
    for i in 0..n
        invariant
            n == v@.len(),
            forall|j: int| 0 <= j < i ==> 33 <= #[trigger] v@[j] <= 126 && v@[j] != 47,
    {
        let b = v[i];
        if b < 33 || b > 126 || b == 47 {
            return false;
        }
    }
    true
}

/// Validates a raw configuration.
///
/// Succeeds exactly when the four mandatory fields are present and
/// every field holds usable bytes; the credential, endpoint and bucket
/// of the result are taken verbatim from the input.  When no override
/// endpoint is configured the host defaults to the region's standard
/// one and buckets are addressed as subdomains; an override host is
/// used with path-style addressing.
pub fn validate_config(input: ConfigInput) -> (r: Result<StorageConfig, S3Result>)
    ensures
        r is Ok <==> spec_config_fault(input) is None,
        r matches Ok(c) ==> {
            &&& c.credentials.access_key_id@ == input.access_key_id->0@
            &&& c.credentials.secret_access_key@ == input.secret_access_key->0@
            &&& c.credentials.session_token is None
            &&& c.bucket@ == input.bucket->0@
            &&& c.endpoint.region@ == input.region->0@
            &&& c.endpoint.host@ == match input.endpoint {
                Some(e) => e@,
                None => spec_default_host(input.region->0@),
            }
            &&& c.endpoint.use_path_style == (input.endpoint is Some)
            &&& credentials_ok(c.credentials)
            &&& endpoint_ok(c.endpoint)
            &&& bucket_ok(c.bucket@)
        },
        r matches Err(e) ==> e matches S3Result::ConfigError(f) && spec_config_fault(input)
            == Some(f),
{
    let access = match input.access_key_id {
        Some(v) => v,
        None => {
            return Err(S3Result::ConfigError(ConfigFault::MissingAccessKeyId));
        },
    };
    let secret = match input.secret_access_key {
        Some(v) => v,
        None => {
            return Err(S3Result::ConfigError(ConfigFault::MissingSecretAccessKey));
        },
    };
    let bucket = match input.bucket {
        Some(v) => v,
        None => {
            return Err(S3Result::ConfigError(ConfigFault::MissingBucket));
        },
    };
    let region = match input.region {
        Some(v) => v,
        None => {
            return Err(S3Result::ConfigError(ConfigFault::MissingRegion));
        },
    };
    if !check_name(&access) || !check_name(&secret) || !check_bucket(&bucket) || !check_name(
        &region,
    ) {
        return Err(S3Result::ConfigError(ConfigFault::InvalidField));
    }
    let (host, use_path_style) = match input.endpoint {
        Some(e) => {
            if !check_name(&e) {
                return Err(S3Result::ConfigError(ConfigFault::InvalidField));
            }
            (e, true)
        },
        None => {
            let mut h: Vec<u8> = vec![115u8, 51, 46];
            crate::bytes::append_bytes(&mut h, &region);
            let mut tail: Vec<u8> = vec![
                46u8, 97, 109, 97, 122, 111, 110, 97, 119, 115, 46, 99, 111, 109,
            ];
            crate::bytes::append_bytes(&mut h, &tail);
            assert(h@ =~= spec_default_host(region@));
            assert(name_ok(h@));
            (h, false)
        },
    };
    Ok(
        StorageConfig {
            credentials: Credentials {
                access_key_id: access,
                secret_access_key: secret,
                session_token: None,
            },
            endpoint: Endpoint { host, region, use_path_style },
            bucket,
        },
    )
}

} // verus!
