//! SigV4-style request signing.
//!
//! A draft request (method, canonical path, canonical query, headers,
//! payload hash) is bound to a credential, a region and an injected
//! timestamp: the headers are canonicalized, a canonical request
//! string is hashed into a string to sign, a date-, region- and
//! service-scoped key chain is derived from the secret, and the
//! resulting signature is carried in a single `authorization` header
//! appended after canonicalization.  Signing is the last step before
//! transport; nothing here reads a clock or touches the network.

use vstd::prelude::*;

use crate::bytes::{append_bytes, copy_bytes, eq_bytes};
use crate::crypto::{hmac_sha256, hmac_sha256_of, sha256, sha256_of};
use crate::errors::S3Result;
use crate::headers::{
    canon_header, canonicalize_headers, header_view, header_views, lower_bytes,
    lower_bytes_vec, spec_canonicalize, HttpHeader,
};
use crate::hexenc::{hex_encode, hex_of};

verus! {

/// A static credential: access key, secret key, optional session token.
#[derive(Debug, Clone)]
pub struct Credentials {
    pub access_key_id: Vec<u8>,
    pub secret_access_key: Vec<u8>,
    pub session_token: Option<Vec<u8>>,
}

/// A UTC timestamp, injected by the caller so that signing never reads
/// the system clock and tests can pin it.
#[derive(Debug, Clone, Copy, PartialEq, Eq, Structural)]
pub struct UtcTimestamp {
    pub year: u16,
    pub month: u8,
    pub day: u8,
    pub hour: u8,
    pub minute: u8,
    pub second: u8,
}

impl UtcTimestamp {
    /// A calendar-plausible timestamp with a four-digit year.
    pub open spec fn wf(self) -> bool {
        self.year <= 9999 && 1 <= self.month <= 12 && 1 <= self.day <= 31 && self.hour <= 23
            && self.minute <= 59 && self.second <= 59
    }
}

/// A request before signing: everything the signature binds.
#[derive(Debug, Clone)]
pub struct RequestDraft {
    pub method: Vec<u8>,
    pub uri_path: Vec<u8>,
    pub query: Vec<u8>,
    pub headers: Vec<HttpHeader>,
    pub payload_hash_hex: Vec<u8>,
    pub body: Vec<u8>,
}

/// A signed request, ready for one HTTP exchange.  The headers are in
/// canonical form with the single `authorization` header appended
/// last; they must be sent exactly as they stand.
#[derive(Debug, Clone)]
pub struct SignedRequest {
    pub method: Vec<u8>,
    pub uri_path: Vec<u8>,
    pub query: Vec<u8>,
    pub headers: Vec<HttpHeader>,
    pub payload_hash_hex: Vec<u8>,
    pub body: Vec<u8>,
}

// ---------------------------------------------------------------------
// The fixed byte strings of the scheme.
// ---------------------------------------------------------------------

/// `authorization`
pub open spec fn auth_name() -> Seq<u8> {
    seq![97u8, 117, 116, 104, 111, 114, 105, 122, 97, 116, 105, 111, 110]
}

/// `x-amz-date`
pub open spec fn amz_date_name() -> Seq<u8> {
    seq![120u8, 45, 97, 109, 122, 45, 100, 97, 116, 101]
}

/// `x-amz-content-sha256`
pub open spec fn amz_sha_name() -> Seq<u8> {
    seq![120u8, 45, 97, 109, 122, 45, 99, 111, 110, 116, 101, 110, 116, 45, 115, 104, 97, 50, 53, 54]
}

/// `x-amz-security-token`
pub open spec fn amz_token_name() -> Seq<u8> {
    seq![120u8, 45, 97, 109, 122, 45, 115, 101, 99, 117, 114, 105, 116, 121, 45, 116, 111, 107, 101, 110]
}

/// `AWS4-HMAC-SHA256`
pub open spec fn algorithm_tag() -> Seq<u8> {
    seq![65u8, 87, 83, 52, 45, 72, 77, 65, 67, 45, 83, 72, 65, 50, 53, 54]
}

/// `AWS4`
pub open spec fn key_prefix() -> Seq<u8> {
    seq![65u8, 87, 83, 52]
}

/// `s3`
pub open spec fn service_tag() -> Seq<u8> {
    seq![115u8, 51]
}

/// `aws4_request`
pub open spec fn terminator_tag() -> Seq<u8> {
    seq![97u8, 119, 115, 52, 95, 114, 101, 113, 117, 101, 115, 116]
}

fn bytes_auth_name() -> (r: Vec<u8>)
    ensures
        r@ == auth_name(),
{
    let r: Vec<u8> = vec![97u8, 117, 116, 104, 111, 114, 105, 122, 97, 116, 105, 111, 110];
    assert(r@ =~= auth_name());
    r
}

fn bytes_amz_date_name() -> (r: Vec<u8>)
    ensures
        r@ == amz_date_name(),
{
    let r: Vec<u8> = vec![120u8, 45, 97, 109, 122, 45, 100, 97, 116, 101];
    assert(r@ =~= amz_date_name());
    r
}

fn bytes_amz_sha_name() -> (r: Vec<u8>)
    ensures
        r@ == amz_sha_name(),
{
    let r: Vec<u8> = vec![
        120u8, 45, 97, 109, 122, 45, 99, 111, 110, 116, 101, 110, 116, 45, 115, 104, 97, 50, 53, 54,
    ];
    assert(r@ =~= amz_sha_name());
    r
}

fn bytes_amz_token_name() -> (r: Vec<u8>)
    ensures
        r@ == amz_token_name(),
{
    let r: Vec<u8> = vec![
        120u8, 45, 97, 109, 122, 45, 115, 101, 99, 117, 114, 105, 116, 121, 45, 116, 111, 107, 101,
        110,
    ];
    assert(r@ =~= amz_token_name());
    r
}

fn bytes_algorithm_tag() -> (r: Vec<u8>)
    ensures
        r@ == algorithm_tag(),
{
    let r: Vec<u8> = vec![65u8, 87, 83, 52, 45, 72, 77, 65, 67, 45, 83, 72, 65, 50, 53, 54];
    assert(r@ =~= algorithm_tag());
    r
}

// ---------------------------------------------------------------------
// Timestamp rendering.
// ---------------------------------------------------------------------

/// The two-digit decimal rendering of a value, low two digits.
pub open spec fn two_digits(n: u8) -> Seq<u8> {
    seq![(48 + (n as int / 10) % 10) as u8, (48 + n as int % 10) as u8]
}

/// The four-digit decimal rendering of a value, low four digits.
pub open spec fn four_digits(n: u16) -> Seq<u8> {
    seq![
        (48 + (n as int / 1000) % 10) as u8,
        (48 + (n as int / 100) % 10) as u8,
        (48 + (n as int / 10) % 10) as u8,
        (48 + n as int % 10) as u8,
    ]
}

/// The date scope of a timestamp: `YYYYMMDD`.
pub open spec fn amz_date(ts: UtcTimestamp) -> Seq<u8> {
    four_digits(ts.year) + two_digits(ts.month) + two_digits(ts.day)
}

/// The long form of a timestamp: `YYYYMMDDTHHMMSSZ`.
pub open spec fn amz_datetime(ts: UtcTimestamp) -> Seq<u8> {
    amz_date(ts) + seq![84u8] + two_digits(ts.hour) + two_digits(ts.minute) + two_digits(ts.second)
        + seq![90u8]
}

fn push_two_digits(r: &mut Vec<u8>, n: u8)
    ensures
        final(r)@ == old(r)@ + two_digits(n),
{
    r.push(48 + (n / 10) % 10);
    r.push(48 + n % 10);
    assert(r@ =~= old(r)@ + two_digits(n));
}

/// Renders the date scope `YYYYMMDD` of a timestamp.
pub fn format_amz_date(ts: &UtcTimestamp) -> (r: Vec<u8>)
    ensures
        r@ == amz_date(*ts),
{
    let mut r: Vec<u8> = Vec::new();
    r.push(48 + ((ts.year / 1000) % 10) as u8);
    r.push(48 + ((ts.year / 100) % 10) as u8);
    r.push(48 + ((ts.year / 10) % 10) as u8);
    r.push(48 + (ts.year % 10) as u8);
    push_two_digits(&mut r, ts.month);
    push_two_digits(&mut r, ts.day);
    assert(r@ =~= amz_date(*ts));
    r
}

/// Renders the long form `YYYYMMDDTHHMMSSZ` of a timestamp.
pub fn format_amz_datetime(ts: &UtcTimestamp) -> (r: Vec<u8>)
    ensures
        r@ == amz_datetime(*ts),
{
    let mut r = format_amz_date(ts);
    r.push(84);
    push_two_digits(&mut r, ts.hour);
    push_two_digits(&mut r, ts.minute);
    push_two_digits(&mut r, ts.second);
    r.push(90);
    assert(r@ =~= amz_datetime(*ts));
    r
}

// ---------------------------------------------------------------------
// Well-formed drafts.
// ---------------------------------------------------------------------

/// A header name the scheme can sign: nonempty, printable ASCII with
/// no colon.
pub open spec fn header_name_ok(n: Seq<u8>) -> bool {
    n.len() > 0 && forall|i: int| 0 <= i < n.len() ==> 33 <= #[trigger] n[i] <= 126 && n[i] != 58
}

/// A header value the scheme can sign: no line break.
pub open spec fn header_value_ok(v: Seq<u8>) -> bool {
    forall|i: int| 0 <= i < v.len() ==> #[trigger] v[i] != 13 && v[i] != 10
}

/// A draft header the signer accepts: well-formed name and value, and
/// not itself a signature header (signing is the last step; a draft
/// that already carries one is malformed).
pub open spec fn header_ok(h: (Seq<u8>, Seq<u8>)) -> bool {
    header_name_ok(h.0) && header_value_ok(h.1) && lower_bytes(h.0) != auth_name()
}

/// Whether every draft header is one the signer accepts.
pub open spec fn draft_headers_ok(hs: Seq<(Seq<u8>, Seq<u8>)>) -> bool {
    forall|i: int| 0 <= i < hs.len() ==> header_ok(#[trigger] hs[i])
}

fn check_header_ok(h: &HttpHeader) -> (r: bool)
    ensures
        r == header_ok(header_view(*h)),
{
    if h.name.len() == 0 {
        return false;
    }
    let n = h.name.len();
    for i in 0..n
        invariant
            n == h.name@.len(),
            forall|j: int| 0 <= j < i ==> 33 <= #[trigger] h.name@[j] <= 126 && h.name@[j] != 58,
    {
        let b = h.name[i];
        if b < 33 || b > 126 || b == 58 {
            return false;
        }
    }
    let m = h.value.len();
    for i in 0..m
        invariant
            m == h.value@.len(),
            forall|j: int| 0 <= j < i ==> #[trigger] h.value@[j] != 13 && h.value@[j] != 10,
    {
        let b = h.value[i];
        if b == 13 || b == 10 {
            return false;
        }
    }
    let lowered = lower_bytes_vec(&h.name);
    let auth = bytes_auth_name();
    !eq_bytes(&lowered, &auth)
}

// ---------------------------------------------------------------------
// The canonical request and the signature chain.
// ---------------------------------------------------------------------

/// The canonical rendering of a (already canonical) header list:
/// `name:value` lines.
pub open spec fn header_block(hs: Seq<(Seq<u8>, Seq<u8>)>) -> Seq<u8>
    decreases hs.len(),
{
    if hs.len() == 0 {
        Seq::empty()
    } else {
        hs[0].0 + seq![58u8] + hs[0].1 + seq![10u8] + header_block(hs.drop_first())
    }
}

pub open spec fn tail_names(hs: Seq<(Seq<u8>, Seq<u8>)>) -> Seq<u8>
    decreases hs.len(),
{
    if hs.len() == 0 {
        Seq::empty()
    } else {
        seq![59u8] + hs[0].0 + tail_names(hs.drop_first())
    }
}

/// The signed-header list: the names, joined with `;`.
pub open spec fn names_list(hs: Seq<(Seq<u8>, Seq<u8>)>) -> Seq<u8> {
    if hs.len() == 0 {
        Seq::empty()
    } else {
        hs[0].0 + tail_names(hs.drop_first())
    }
}

/// The canonical request string that is hashed into the signature.
pub open spec fn spec_canonical_request(
    method: Seq<u8>,
    path: Seq<u8>,
    query: Seq<u8>,
    chs: Seq<(Seq<u8>, Seq<u8>)>,
    payload_hash: Seq<u8>,
) -> Seq<u8> {
    method + seq![10u8] + path + seq![10u8] + query + seq![10u8] + header_block(chs) + seq![10u8]
        + names_list(chs) + seq![10u8] + payload_hash
}

/// The credential scope: `date/region/s3/aws4_request`.
pub open spec fn spec_scope(date: Seq<u8>, region: Seq<u8>) -> Seq<u8> {
    date + seq![47u8] + region + seq![47u8] + service_tag() + seq![47u8] + terminator_tag()
}

/// The string to sign: algorithm, timestamp, scope, hashed canonical
/// request.
pub open spec fn spec_string_to_sign(datetime: Seq<u8>, scope: Seq<u8>, creq: Seq<u8>) -> Seq<u8> {
    algorithm_tag() + seq![10u8] + datetime + seq![10u8] + scope + seq![10u8] + hex_of(
        sha256_of(creq),
    )
}

/// The derived signing key: the secret run through the date-, region-
/// and service-scoped HMAC chain.
pub open spec fn spec_signing_key(secret: Seq<u8>, date: Seq<u8>, region: Seq<u8>) -> Seq<u8> {
    hmac_sha256_of(
        hmac_sha256_of(
            hmac_sha256_of(hmac_sha256_of(key_prefix() + secret, date), region),
            service_tag(),
        ),
        terminator_tag(),
    )
}

/// The final signature, in lower-case hex.
pub open spec fn spec_signature(
    secret: Seq<u8>,
    region: Seq<u8>,
    ts: UtcTimestamp,
    creq: Seq<u8>,
) -> Seq<u8> {
    hex_of(
        hmac_sha256_of(
            spec_signing_key(secret, amz_date(ts), region),
            spec_string_to_sign(amz_datetime(ts), spec_scope(amz_date(ts), region), creq),
        ),
    )
}

/// ` Credential=`
pub open spec fn credential_tag() -> Seq<u8> {
    seq![32u8, 67, 114, 101, 100, 101, 110, 116, 105, 97, 108, 61]
}

/// `, SignedHeaders=`
pub open spec fn signed_headers_tag() -> Seq<u8> {
    seq![44u8, 32, 83, 105, 103, 110, 101, 100, 72, 101, 97, 100, 101, 114, 115, 61]
}

/// `, Signature=`
pub open spec fn signature_tag() -> Seq<u8> {
    seq![44u8, 32, 83, 105, 103, 110, 97, 116, 117, 114, 101, 61]
}

/// The value of the `authorization` header.
pub open spec fn spec_auth_value(
    access: Seq<u8>,
    scope: Seq<u8>,
    names: Seq<u8>,
    signature: Seq<u8>,
) -> Seq<u8> {
    algorithm_tag() + credential_tag() + access + seq![47u8] + scope + signed_headers_tag() + names
        + signature_tag() + signature
}

/// The headers added to the draft before canonicalization: the
/// timestamp, the payload hash, and the session token if one is held.
pub open spec fn spec_base_headers(
    draft_hs: Seq<(Seq<u8>, Seq<u8>)>,
    datetime: Seq<u8>,
    payload_hash: Seq<u8>,
    token: Option<Seq<u8>>,
) -> Seq<(Seq<u8>, Seq<u8>)> {
    let b = draft_hs + seq![(amz_date_name(), datetime), (amz_sha_name(), payload_hash)];
    match token {
        Some(t) => b + seq![(amz_token_name(), t)],
        None => b,
    }
}

/// The full header list of the signed request: the canonical form of
/// the base headers, with the one `authorization` header appended.
pub open spec fn spec_signed_headers(
    draft_hs: Seq<(Seq<u8>, Seq<u8>)>,
    method: Seq<u8>,
    path: Seq<u8>,
    query: Seq<u8>,
    payload_hash: Seq<u8>,
    access: Seq<u8>,
    secret: Seq<u8>,
    token: Option<Seq<u8>>,
    region: Seq<u8>,
    ts: UtcTimestamp,
) -> Seq<(Seq<u8>, Seq<u8>)> {
    let chs = spec_canonicalize(spec_base_headers(draft_hs, amz_datetime(ts), payload_hash, token));
    let creq = spec_canonical_request(method, path, query, chs, payload_hash);
    let sig = spec_signature(secret, region, ts, creq);
    let authval = spec_auth_value(access, spec_scope(amz_date(ts), region), names_list(chs), sig);
    chs.push((auth_name(), authval))
}

/// Exactly one signature header, and it stands last: the invariant of
/// every signed request.
pub open spec fn carries_one_signature(hs: Seq<(Seq<u8>, Seq<u8>)>) -> bool {
    hs.len() > 0 && hs.last().0 == auth_name() && forall|i: int|
        0 <= i < hs.len() - 1 ==> (#[trigger] hs[i]).0 != auth_name()
}

/// Signing is deterministic: any two signed requests produced from
/// identical method, path, query, headers, payload hash, credential,
/// region and timestamp carry byte-identical headers, signature
/// included.
pub proof fn lemma_sign_deterministic(
    a: Seq<(Seq<u8>, Seq<u8>)>,
    b: Seq<(Seq<u8>, Seq<u8>)>,
    draft_hs: Seq<(Seq<u8>, Seq<u8>)>,
    method: Seq<u8>,
    path: Seq<u8>,
    query: Seq<u8>,
    payload_hash: Seq<u8>,
    access: Seq<u8>,
    secret: Seq<u8>,
    token: Option<Seq<u8>>,
    region: Seq<u8>,
    ts: UtcTimestamp,
)
    requires
        a == spec_signed_headers(
            draft_hs,
            method,
            path,
            query,
            payload_hash,
            access,
            secret,
            token,
            region,
            ts,
        ),
        b == spec_signed_headers(
            draft_hs,
            method,
            path,
            query,
            payload_hash,
            access,
            secret,
            token,
            region,
            ts,
        ),
    ensures
        a == b,
{
}

// ---------------------------------------------------------------------
// Executable signing.
// ---------------------------------------------------------------------

fn build_header_block(hs: &Vec<HttpHeader>) -> (r: Vec<u8>)
    ensures
        r@ == header_block(header_views(hs@)),
{
    let mut r: Vec<u8> = Vec::new();
    let n = hs.len();
    assert(header_views(hs@).skip(0) == header_views(hs@));
    for i in 0..n
        invariant
            n == hs@.len(),
            header_block(header_views(hs@)) =~= r@ + header_block(
                header_views(hs@).skip(i as int),
            ),
    {
        let ghost hv = header_views(hs@);
        append_bytes(&mut r, &hs[i].name);
        r.push(58);
        append_bytes(&mut r, &hs[i].value);
        r.push(10);
        proof {
            assert(hv.skip(i as int)[0] == hv[i as int]);
            assert(hv[i as int] == header_view(hs@[i as int]));
            assert(hv.skip(i as int).drop_first() =~= hv.skip(i + 1));
            assert(header_block(hv) =~= r@ + header_block(hv.skip(i + 1)));
        }
    }
    assert(header_block(header_views(hs@).skip(n as int)) =~= Seq::<u8>::empty());
    assert(r@ =~= header_block(header_views(hs@)));
    r
}

fn build_names_list(hs: &Vec<HttpHeader>) -> (r: Vec<u8>)
    ensures
        r@ == names_list(header_views(hs@)),
{
    let mut r: Vec<u8> = Vec::new();
    if hs.len() == 0 {
        assert(r@ =~= names_list(header_views(hs@)));
        return r;
    }
    let ghost hv = header_views(hs@);
    assert(hv[0] == header_view(hs@[0]));
    append_bytes(&mut r, &hs[0].name);
    let n = hs.len();
    assert(hv.drop_first() =~= hv.skip(1));
    for i in 1..n
        invariant
            1 <= i <= n,
            n == hs@.len(),
            hv == header_views(hs@),
            names_list(hv) =~= r@ + tail_names(hv.skip(i as int)),
    {
        r.push(59);
        append_bytes(&mut r, &hs[i].name);
        proof {
            assert(hv.skip(i as int)[0] == hv[i as int]);
            assert(hv[i as int] == header_view(hs@[i as int]));
            assert(hv.skip(i as int).drop_first() =~= hv.skip(i + 1));
            assert(names_list(hv) =~= r@ + tail_names(hv.skip(i + 1)));
        }
    }
    assert(tail_names(hv.skip(n as int)) =~= Seq::<u8>::empty());
    assert(r@ =~= names_list(hv));
    r
}

/// Signs a draft request.
///
/// Returns the signed request, whose headers are the canonical form of
/// the draft's headers plus the timestamp, payload-hash and (when a
/// session token is held) token headers, with the single
/// `authorization` header appended last.  Fails with `SigningError`,
/// carrying the index of the first offending header, exactly when some
/// draft header is malformed: an empty or non-printable name, a line
/// break in a value, or a header that already claims to be a signature.
pub fn sign_request(
    draft: RequestDraft,
    creds: &Credentials,
    region: &Vec<u8>,
    ts: &UtcTimestamp,
) -> (r: Result<SignedRequest, S3Result>)
    ensures
        r is Ok <==> draft_headers_ok(header_views(draft.headers@)),
        r matches Ok(sr) ==> {
            &&& sr.method@ == draft.method@
            &&& sr.uri_path@ == draft.uri_path@
            &&& sr.query@ == draft.query@
            &&& sr.payload_hash_hex@ == draft.payload_hash_hex@
            &&& sr.body@ == draft.body@
            &&& header_views(sr.headers@) == spec_signed_headers(
                header_views(draft.headers@),
                draft.method@,
                draft.uri_path@,
                draft.query@,
                draft.payload_hash_hex@,
                creds.access_key_id@,
                creds.secret_access_key@,
                match creds.session_token {
                    Some(ref t) => Some(t@),
                    None => None,
                },
                region@,
                *ts,
            )
            &&& carries_one_signature(header_views(sr.headers@))
        },
        r matches Err(e) ==> (e matches S3Result::SigningError(i) && 0 <= i
            < draft.headers@.len() && !header_ok(header_views(draft.headers@)[i as int]) && forall|
            j: int,
        |
            0 <= j < i ==> header_ok(#[trigger] header_views(draft.headers@)[j])),
{
    let ghost draft_hv = header_views(draft.headers@);
    let nh = draft.headers.len();
    for i in 0..nh
        invariant
            nh == draft.headers@.len(),
            draft_hv == header_views(draft.headers@),
            forall|j: int| 0 <= j < i ==> header_ok(#[trigger] draft_hv[j]),
    {
        assert(draft_hv[i as int] == header_view(draft.headers@[i as int]));
        if !check_header_ok(&draft.headers[i]) {
            return Err(S3Result::SigningError(i));
        }
    }
    assert(draft_headers_ok(draft_hv));

    let datetime = format_amz_datetime(ts);
    let date = format_amz_date(ts);
    let ghost token_view: Option<Seq<u8>> = match creds.session_token {
        Some(ref t) => Some(t@),
        None => None,
    };

    // Base headers: the draft's plus the scheme's own.
    let mut base = draft.headers;
    let ghost base0 = header_views(base@);
    base.push(HttpHeader { name: bytes_amz_date_name(), value: copy_bytes(&datetime) });
    base.push(HttpHeader { name: bytes_amz_sha_name(), value: copy_bytes(&draft.payload_hash_hex) });
    match creds.session_token {
        Some(ref t) => {
            base.push(HttpHeader { name: bytes_amz_token_name(), value: copy_bytes(t) });
        },
        None => {},
    }
    assert(header_views(base@) =~= spec_base_headers(
        draft_hv,
        amz_datetime(*ts),
        draft.payload_hash_hex@,
        token_view,
    ));
    let ghost base_hv = header_views(base@);

    let chs = canonicalize_headers(base);
    let ghost chs_v = header_views(chs@);

    // The canonical request.
    let mut creq = copy_bytes(&draft.method);
    creq.push(10);
    append_bytes(&mut creq, &draft.uri_path);
    creq.push(10);
    append_bytes(&mut creq, &draft.query);
    creq.push(10);
    let block = build_header_block(&chs);
    append_bytes(&mut creq, &block);
    creq.push(10);
    let names = build_names_list(&chs);
    append_bytes(&mut creq, &names);
    creq.push(10);
    append_bytes(&mut creq, &draft.payload_hash_hex);
    assert(creq@ =~= spec_canonical_request(
        draft.method@,
        draft.uri_path@,
        draft.query@,
        chs_v,
        draft.payload_hash_hex@,
    ));

    // The scope and the string to sign.
    let mut scope = copy_bytes(&date);
    scope.push(47);
    append_bytes(&mut scope, region);
    scope.push(47);
    scope.push(115);
    scope.push(51);
    scope.push(47);
    let mut term: Vec<u8> = vec![97u8, 119, 115, 52, 95, 114, 101, 113, 117, 101, 115, 116];
    assert(term@ =~= terminator_tag());
    append_bytes(&mut scope, &term);
    assert(scope@ =~= spec_scope(amz_date(*ts), region@));

    let creq_hash = sha256(&creq);
    let creq_hash_hex = hex_encode(&creq_hash);
    let mut sts = bytes_algorithm_tag();
    sts.push(10);
    append_bytes(&mut sts, &datetime);
    sts.push(10);
    append_bytes(&mut sts, &scope);
    sts.push(10);
    append_bytes(&mut sts, &creq_hash_hex);
    assert(sts@ =~= spec_string_to_sign(amz_datetime(*ts), scope@, creq@));

    // The derived key chain.
    let mut k0: Vec<u8> = vec![65u8, 87, 83, 52];
    assert(k0@ =~= key_prefix());
    append_bytes(&mut k0, &creds.secret_access_key);
    let k1 = hmac_sha256(&k0, &date);
    let k2 = hmac_sha256(&k1, region);
    let mut svc: Vec<u8> = vec![115u8, 51];
    assert(svc@ =~= service_tag());
    let k3 = hmac_sha256(&k2, &svc);
    let key = hmac_sha256(&k3, &term);
    assert(key@ == spec_signing_key(creds.secret_access_key@, amz_date(*ts), region@));

    let sig_raw = hmac_sha256(&key, &sts);
    let sig = hex_encode(&sig_raw);
    assert(sig@ == spec_signature(creds.secret_access_key@, region@, *ts, creq@));

    // The authorization header value.
    let mut authval = bytes_algorithm_tag();
    let mut cred_tag: Vec<u8> = vec![32u8, 67, 114, 101, 100, 101, 110, 116, 105, 97, 108, 61];
    assert(cred_tag@ =~= credential_tag());
    append_bytes(&mut authval, &cred_tag);
    append_bytes(&mut authval, &creds.access_key_id);
    authval.push(47);
    append_bytes(&mut authval, &scope);
    let mut sh_tag: Vec<u8> = vec![
        44u8, 32, 83, 105, 103, 110, 101, 100, 72, 101, 97, 100, 101, 114, 115, 61,
    ];
    assert(sh_tag@ =~= signed_headers_tag());
    append_bytes(&mut authval, &sh_tag);
    append_bytes(&mut authval, &names);
    let mut sig_tag: Vec<u8> = vec![44u8, 32, 83, 105, 103, 110, 97, 116, 117, 114, 101, 61];
    assert(sig_tag@ =~= signature_tag());
    append_bytes(&mut authval, &sig_tag);
    append_bytes(&mut authval, &sig);
    assert(authval@ =~= spec_auth_value(
        creds.access_key_id@,
        spec_scope(amz_date(*ts), region@),
        names_list(chs_v),
        sig@,
    ));

    let mut headers = chs;
    headers.push(HttpHeader { name: bytes_auth_name(), value: authval });
    assert(header_views(headers@) =~= chs_v.push((auth_name(), spec_auth_value(
        creds.access_key_id@,
        spec_scope(amz_date(*ts), region@),
        names_list(chs_v),
        spec_signature(
            creds.secret_access_key@,
            region@,
            *ts,
            spec_canonical_request(
                draft.method@,
                draft.uri_path@,
                draft.query@,
                chs_v,
                draft.payload_hash_hex@,
            ),
        ),
    ))));

    proof {
        let p = |h: (Seq<u8>, Seq<u8>)| h.0 != auth_name();
        assert forall|i: int| 0 <= i < base_hv.len() implies p(canon_header(#[trigger] base_hv[i])) by {
            if i < draft_hv.len() {
                assert(base_hv[i] == draft_hv[i]);
                assert(header_ok(draft_hv[i]));
            } else {
                assert(base_hv[i].0 == amz_date_name() || base_hv[i].0 == amz_sha_name()
                    || base_hv[i].0 == amz_token_name());
                assert(lower_bytes(amz_date_name()) =~= amz_date_name());
                assert(lower_bytes(amz_sha_name()) =~= amz_sha_name());
                assert(lower_bytes(amz_token_name()) =~= amz_token_name());
                assert(amz_date_name().len() != auth_name().len());
                assert(amz_sha_name().len() != auth_name().len());
                assert(amz_token_name().len() != auth_name().len());
            }
        }
        crate::headers::lemma_canonicalize_all(p, base_hv);
        let final_hv = header_views(headers@);
        assert(final_hv.last().0 == auth_name());
        assert forall|i: int| 0 <= i < final_hv.len() - 1 implies (#[trigger] final_hv[i]).0
            != auth_name() by {
            assert(final_hv[i] == chs_v[i]);
        }
    }

    Ok(
        SignedRequest {
            method: draft.method,
            uri_path: draft.uri_path,
            query: draft.query,
            headers,
            payload_hash_hex: draft.payload_hash_hex,
            body: draft.body,
        },
    )
}

} // verus!
