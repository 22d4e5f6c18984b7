//! The object-store facade: request builders, response
//! interpretation, and listing pagination.
//!
//! Every operation is a single request/response exchange.  A builder
//! turns the operation into a signed request; the caller performs the
//! HTTP exchange by whatever transport it has; an interpreter turns
//! the raw response into the operation's typed result or exactly one
//! taxonomy error.  Listing keeps a small pagination state that
//! consumes continuation tokens in order.

use vstd::prelude::*;

use crate::bytes::{append_bytes, copy_bytes, slice_bytes};
use crate::config::{bucket_ok, credentials_ok, endpoint_ok, Endpoint};
use crate::crypto::{sha256, sha256_of};
use crate::errors::S3Result;
use crate::headers::{header_view, header_views, lower_bytes, HttpHeader};
use crate::hexenc::{hex_digit_upper, hex_encode, hex_of};
use crate::scan::{
    dec_val, extract_from, is_digits, lemma_extract_props, parse_u64, spec_extract,
    spec_tag_text, tag_text,
};
use crate::signer::{
    carries_one_signature, sign_request, spec_signed_headers, Credentials, RequestDraft,
    SignedRequest, UtcTimestamp,
};

verus! {

/// What one HTTP exchange returned: status, headers, body.  A non-2xx
/// status is a response, not a transport error; its meaning is
/// operation-specific.
#[derive(Debug, Clone)]
pub struct RawResponse {
    pub status: u16,
    pub headers: Vec<HttpHeader>,
    pub body: Vec<u8>,
}

/// One object of a listing.
#[derive(Debug, Clone)]
pub struct ObjectSummary {
    pub key: Vec<u8>,
    pub size: u64,
    pub etag: Vec<u8>,
    pub last_modified: Vec<u8>,
}

/// The metadata of one object, from a head or put response.
#[derive(Debug, Clone)]
pub struct ObjectMetadata {
    pub etag: Vec<u8>,
    pub size: u64,
    pub server_side_encryption: bool,
    pub version_id: Option<Vec<u8>>,
    pub last_modified: Option<Vec<u8>>,
}

/// The mathematical view of an object summary: key, size, etag, last
/// modified.
pub open spec fn summary_view(o: ObjectSummary) -> (Seq<u8>, int, Seq<u8>, Seq<u8>) {
    (o.key@, o.size as int, o.etag@, o.last_modified@)
}

/// The mathematical view of a summary list.
pub open spec fn summary_views(os: Seq<ObjectSummary>) -> Seq<(Seq<u8>, int, Seq<u8>, Seq<u8>)> {
    os.map_values(|o: ObjectSummary| summary_view(o))
}

// ---------------------------------------------------------------------
// Header lookup and small byte-string readings.
// ---------------------------------------------------------------------

/// The value of the first header whose lower-cased name is `name`.
pub open spec fn spec_get_header(hs: Seq<(Seq<u8>, Seq<u8>)>, name: Seq<u8>) -> Option<Seq<u8>>
    decreases hs.len(),
{
    if hs.len() == 0 {
        None
    } else if lower_bytes(hs[0].0) == name {
        Some(hs[0].1)
    } else {
        spec_get_header(hs.drop_first(), name)
    }
}

/// Finds the first header with the given (lower-case) name,
/// case-insensitively.
pub fn get_header(hs: &Vec<HttpHeader>, name: &Vec<u8>) -> (r: Option<Vec<u8>>)
    ensures
        match r {
            Some(v) => spec_get_header(header_views(hs@), name@) == Some(v@),
            None => spec_get_header(header_views(hs@), name@) is None,
        },
{
    let ghost hv = header_views(hs@);
    let n = hs.len();
    assert(hv.skip(0) == hv);
    for i in 0..n
        invariant
            n == hs@.len(),
            hv == header_views(hs@),
            spec_get_header(hv, name@) == spec_get_header(hv.skip(i as int), name@),
    {
        proof {
            assert(hv.skip(i as int)[0] == hv[i as int]);
            assert(hv[i as int] == header_view(hs@[i as int]));
            assert(hv.skip(i as int).drop_first() =~= hv.skip(i + 1));
        }
        let lowered = crate::headers::lower_bytes_vec(&hs[i].name);
        if crate::bytes::eq_bytes(&lowered, name) {
            return Some(copy_bytes(&hs[i].value));
        }
    }
    assert(hv.skip(n as int) =~= Seq::<(Seq<u8>, Seq<u8>)>::empty());
    None
}

/// The string with one pair of surrounding double quotes removed, when
/// it carries one.
pub open spec fn strip_quotes(s: Seq<u8>) -> Seq<u8> {
    if s.len() >= 2 && s[0] == 34 && s.last() == 34 {
        s.subrange(1, s.len() - 1)
    } else {
        s
    }
}

fn strip_quotes_vec(s: &Vec<u8>) -> (r: Vec<u8>)
    ensures
        r@ == strip_quotes(s@),
{
    if s.len() >= 2 && s[0] == 34 && s[s.len() - 1] == 34 {
        slice_bytes(s, 1, s.len() - 1)
    } else {
        copy_bytes(s)
    }
}

/// The first bytes of a response body, cut at 256: what a failure
/// carries as its excerpt.
pub open spec fn spec_excerpt(s: Seq<u8>) -> Seq<u8> {
    if s.len() <= 256 {
        s
    } else {
        s.take(256)
    }
}

fn excerpt_vec(s: &Vec<u8>) -> (r: Vec<u8>)
    ensures
        r@ == spec_excerpt(s@),
{
    if s.len() <= 256 {
        copy_bytes(s)
    } else {
        let r = slice_bytes(s, 0, 256);
        assert(s@.subrange(0, 256) =~= s@.take(256));
        r
    }
}

// ---------------------------------------------------------------------
// Percent-encoding.
// ---------------------------------------------------------------------

/// A byte that stands for itself in a canonical URI or query.
pub open spec fn unreserved_byte(b: u8) -> bool {
    (48 <= b <= 57) || (65 <= b <= 90) || (97 <= b <= 122) || b == 45 || b == 46 || b == 95 || b
        == 126
}

/// The encoding of one byte: itself when unreserved (or a kept `/`),
/// else `%XX` with upper-case hex.
pub open spec fn spec_encode_byte(b: u8, keep_slash: bool) -> Seq<u8> {
    if unreserved_byte(b) || (keep_slash && b == 47) {
        seq![b]
    } else {
        seq![37u8, hex_digit_upper(b / 16), hex_digit_upper(b % 16)]
    }
}

/// Percent-encoding of a byte string; `keep_slash` leaves path
/// separators readable (uri paths) or encodes them too (query values).
pub open spec fn spec_uri_encode(s: Seq<u8>, keep_slash: bool) -> Seq<u8>
    decreases s.len(),
{
    if s.len() == 0 {
        Seq::empty()
    } else {
        spec_encode_byte(s.first(), keep_slash) + spec_uri_encode(s.drop_first(), keep_slash)
    }
}

/// Percent-encodes a byte string.
pub fn uri_encode(s: &Vec<u8>, keep_slash: bool) -> (r: Vec<u8>)
    ensures
        r@ == spec_uri_encode(s@, keep_slash),
{
    let mut r: Vec<u8> = Vec::new();
    let n = s.len();
    assert(s@.skip(0) == s@);
    for i in 0..n
        invariant
            n == s@.len(),
            spec_uri_encode(s@, keep_slash) =~= r@ + spec_uri_encode(s@.skip(i as int), keep_slash),
    {
        let b = s[i];
        if (48 <= b && b <= 57) || (65 <= b && b <= 90) || (97 <= b && b <= 122) || b == 45 || b
            == 46 || b == 95 || b == 126 || (keep_slash && b == 47) {
            r.push(b);
        } else {
            r.push(37);
            let hi = b / 16;
            let lo = b % 16;
            r.push(if hi < 10 { 48 + hi } else { 55 + hi });
            r.push(if lo < 10 { 48 + lo } else { 55 + lo });
        }
        assert(s@.skip(i as int)[0] == s@[i as int]);
        assert(s@.skip(i as int).drop_first() =~= s@.skip(i + 1));
    }
    assert(r@ =~= spec_uri_encode(s@, keep_slash));
    r
}

// ---------------------------------------------------------------------
// The tags of a list response.
// ---------------------------------------------------------------------

/// `<Contents>`
pub open spec fn contents_open() -> Seq<u8> {
    seq![60u8, 67, 111, 110, 116, 101, 110, 116, 115, 62]
}

/// `<Key>`
pub open spec fn key_open() -> Seq<u8> {
    seq![60u8, 75, 101, 121, 62]
}

/// `<Size>`
pub open spec fn size_open() -> Seq<u8> {
    seq![60u8, 83, 105, 122, 101, 62]
}

/// `<ETag>`
pub open spec fn etag_open() -> Seq<u8> {
    seq![60u8, 69, 84, 97, 103, 62]
}

/// `<LastModified>`
pub open spec fn lastmod_open() -> Seq<u8> {
    seq![60u8, 76, 97, 115, 116, 77, 111, 100, 105, 102, 105, 101, 100, 62]
}

/// `<NextContinuationToken>`
pub open spec fn token_open() -> Seq<u8> {
    seq![60u8, 78, 101, 120, 116, 67, 111, 110, 116, 105, 110, 117, 97, 116, 105, 111, 110, 84, 111, 107, 101, 110, 62]
}

/// The closing tag of an opening tag: `</` ++ the rest.
pub open spec fn close_tag_of(open: Seq<u8>) -> Seq<u8> {
    seq![60u8, 47] + open.skip(1)
}

fn bytes_contents_open() -> (r: Vec<u8>)
    ensures
        r@ == contents_open(),
{
    let r: Vec<u8> = vec![60u8, 67, 111, 110, 116, 101, 110, 116, 115, 62];
    assert(r@ =~= contents_open());
    r
}

fn bytes_key_open() -> (r: Vec<u8>)
    ensures
        r@ == key_open(),
{
    let r: Vec<u8> = vec![60u8, 75, 101, 121, 62];
    assert(r@ =~= key_open());
    r
}

fn bytes_size_open() -> (r: Vec<u8>)
    ensures
        r@ == size_open(),
{
    let r: Vec<u8> = vec![60u8, 83, 105, 122, 101, 62];
    assert(r@ =~= size_open());
    r
}

fn bytes_etag_open() -> (r: Vec<u8>)
    ensures
        r@ == etag_open(),
{
    let r: Vec<u8> = vec![60u8, 69, 84, 97, 103, 62];
    assert(r@ =~= etag_open());
    r
}

fn bytes_lastmod_open() -> (r: Vec<u8>)
    ensures
        r@ == lastmod_open(),
{
    let r: Vec<u8> = vec![60u8, 76, 97, 115, 116, 77, 111, 100, 105, 102, 105, 101, 100, 62];
    assert(r@ =~= lastmod_open());
    r
}

fn bytes_token_open() -> (r: Vec<u8>)
    ensures
        r@ == token_open(),
{
    let r: Vec<u8> = vec![
        60u8, 78, 101, 120, 116, 67, 111, 110, 116, 105, 110, 117, 97, 116, 105, 111, 110, 84, 111,
        107, 101, 110, 62,
    ];
    assert(r@ =~= token_open());
    r
}

fn closing_tag(open: &Vec<u8>) -> (r: Vec<u8>)
    requires
        open@.len() >= 1,
    ensures
        r@ == close_tag_of(open@),
{
    let mut r: Vec<u8> = vec![60u8, 47];
    let n = open.len();
    let mut k: usize = 1;
    while k < n
        invariant
            1 <= k <= n,
            n == open@.len(),
            r@ =~= seq![60u8, 47] + open@.subrange(1, k as int),
        decreases n - k,
    {
        r.push(open[k]);
        k = k + 1;
    }
    assert(open@.subrange(1, n as int) =~= open@.skip(1));
    assert(r@ =~= close_tag_of(open@));
    r
}

// ---------------------------------------------------------------------
// Reading a list page.
// ---------------------------------------------------------------------

/// The text of the first region of `open`'s tag pair in `block`, if
/// any.
pub open spec fn spec_opt_text(block: Seq<u8>, open: Seq<u8>) -> Option<Seq<u8>> {
    spec_tag_text(block, open, close_tag_of(open))
}

/// The key a `Contents` block reports, or empty when absent.
pub open spec fn spec_key_of(block: Seq<u8>) -> Seq<u8> {
    match spec_opt_text(block, key_open()) {
        Some(t) => t,
        None => Seq::empty(),
    }
}

/// The size a `Contents` block reports; an absent or unreadable size
/// is taken as 0.
pub open spec fn spec_size_of(block: Seq<u8>) -> int {
    match spec_opt_text(block, size_open()) {
        Some(t) => if is_digits(t) && dec_val(t) <= u64::MAX {
            dec_val(t)
        } else {
            0
        },
        None => 0,
    }
}

/// The etag a `Contents` block reports, unquoted, or empty when
/// absent.
pub open spec fn spec_etag_of(block: Seq<u8>) -> Seq<u8> {
    match spec_opt_text(block, etag_open()) {
        Some(t) => strip_quotes(t),
        None => Seq::empty(),
    }
}

/// The last-modified text a `Contents` block reports, or empty.
pub open spec fn spec_lastmod_of(block: Seq<u8>) -> Seq<u8> {
    match spec_opt_text(block, lastmod_open()) {
        Some(t) => t,
        None => Seq::empty(),
    }
}

/// The summary a `Contents` block denotes.
pub open spec fn spec_summary_of(block: Seq<u8>) -> (Seq<u8>, int, Seq<u8>, Seq<u8>) {
    (spec_key_of(block), spec_size_of(block), spec_etag_of(block), spec_lastmod_of(block))
}

/// The summaries of the `Contents` blocks of `s` from position `from`
/// on, in document order.
pub open spec fn spec_contents_from(s: Seq<u8>, from: int) -> Seq<(Seq<u8>, int, Seq<u8>, Seq<u8>)>
    decreases s.len() - from,
    when 0 <= from
{
    match spec_extract(s, contents_open(), close_tag_of(contents_open()), from) {
        None => Seq::empty(),
        Some(r) => {
            proof {
                lemma_extract_props(s, contents_open(), close_tag_of(contents_open()), from);
            }
            seq![spec_summary_of(s.subrange(r.0, r.1))] + spec_contents_from(s, r.2)
        },
    }
}

/// The summaries a list page reports, in document order.
pub open spec fn spec_page_objects(s: Seq<u8>) -> Seq<(Seq<u8>, int, Seq<u8>, Seq<u8>)> {
    spec_contents_from(s, 0)
}

/// The continuation token a list page reports, if any.
pub open spec fn spec_page_token(s: Seq<u8>) -> Option<Seq<u8>> {
    spec_opt_text(s, token_open())
}

fn opt_text(block: &Vec<u8>, open: &Vec<u8>) -> (r: Option<Vec<u8>>)
    requires
        open@.len() >= 1,
    ensures
        match r {
            Some(t) => spec_opt_text(block@, open@) == Some(t@),
            None => spec_opt_text(block@, open@) is None,
        },
{
    let close = closing_tag(open);
    tag_text(block, open, &close)
}

fn summary_of_block(block: &Vec<u8>) -> (o: ObjectSummary)
    ensures
        summary_view(o) == spec_summary_of(block@),
{
    let key = match opt_text(block, &bytes_key_open()) {
        Some(t) => t,
        None => Vec::new(),
    };
    let size: u64 = match opt_text(block, &bytes_size_open()) {
        Some(t) => match parse_u64(&t) {
            Some(v) => v,
            None => 0,
        },
        None => 0,
    };
    let etag = match opt_text(block, &bytes_etag_open()) {
        Some(t) => strip_quotes_vec(&t),
        None => Vec::new(),
    };
    let last_modified = match opt_text(block, &bytes_lastmod_open()) {
        Some(t) => t,
        None => Vec::new(),
    };
    let o = ObjectSummary { key, size, etag, last_modified };
    assert(o.key@ == spec_key_of(block@));
    assert(o.size as int == spec_size_of(block@));
    assert(o.etag@ == spec_etag_of(block@));
    assert(o.last_modified@ == spec_lastmod_of(block@));
    o
}

fn collect_contents(body: &Vec<u8>, copen: &Vec<u8>, cclose: &Vec<u8>, from: usize, acc: &mut Vec<
    ObjectSummary,
>)
    requires
        copen@ == contents_open(),
        cclose@ == close_tag_of(contents_open()),
    ensures
        summary_views(final(acc)@) == summary_views(old(acc)@) + spec_contents_from(
            body@,
            from as int,
        ),
    decreases body@.len() - from,
{
    match extract_from(body, copen, cclose, from) {
        None => {
            assert(summary_views(acc@) =~= summary_views(acc@) + spec_contents_from(
                body@,
                from as int,
            ));
        },
        Some((ts, te, after)) => {
            proof {
                lemma_extract_props(body@, copen@, cclose@, from as int);
            }
            let block = slice_bytes(body, ts, te);
            let o = summary_of_block(&block);
            let ghost before = acc@;
            acc.push(o);
            assert(summary_views(acc@) =~= summary_views(before) + seq![summary_view(o)]);
            collect_contents(body, copen, cclose, after, acc);
            assert(summary_views(acc@) =~= summary_views(before) + spec_contents_from(
                body@,
                from as int,
            ));
        },
    }
}

/// Reads one list page: its object summaries in document order, and
/// its continuation token when it carries one.
pub fn parse_list_page(body: &Vec<u8>) -> (r: (Vec<ObjectSummary>, Option<Vec<u8>>))
    ensures
        summary_views(r.0@) == spec_page_objects(body@),
        match r.1 {
            Some(t) => spec_page_token(body@) == Some(t@),
            None => spec_page_token(body@) is None,
        },
{
    let copen = bytes_contents_open();
    let cclose = closing_tag(&copen);
    let mut acc: Vec<ObjectSummary> = Vec::new();
    collect_contents(body, &copen, &cclose, 0, &mut acc);
    assert(summary_views(acc@) =~= spec_page_objects(body@));
    let token = opt_text(body, &bytes_token_open());
    (acc, token)
}


// ---------------------------------------------------------------------
// Response headers as metadata.
// ---------------------------------------------------------------------

/// `etag`
pub open spec fn etag_name() -> Seq<u8> {
    seq![101u8, 116, 97, 103]
}

/// `content-length`
pub open spec fn content_length_name() -> Seq<u8> {
    seq![99u8, 111, 110, 116, 101, 110, 116, 45, 108, 101, 110, 103, 116, 104]
}

/// `x-amz-server-side-encryption`
pub open spec fn sse_name() -> Seq<u8> {
    seq![120u8, 45, 97, 109, 122, 45, 115, 101, 114, 118, 101, 114, 45, 115, 105, 100, 101, 45, 101, 110, 99, 114, 121, 112, 116, 105, 111, 110]
}

/// `x-amz-version-id`
pub open spec fn version_name() -> Seq<u8> {
    seq![120u8, 45, 97, 109, 122, 45, 118, 101, 114, 115, 105, 111, 110, 45, 105, 100]
}

/// `last-modified`
pub open spec fn last_modified_name() -> Seq<u8> {
    seq![108u8, 97, 115, 116, 45, 109, 111, 100, 105, 102, 105, 101, 100]
}

fn bytes_etag_name() -> (r: Vec<u8>)
    ensures
        r@ == etag_name(),
{
    let r: Vec<u8> = vec![101u8, 116, 97, 103];
    assert(r@ =~= etag_name());
    r
}

fn bytes_content_length_name() -> (r: Vec<u8>)
    ensures
        r@ == content_length_name(),
{
    let r: Vec<u8> = vec![99u8, 111, 110, 116, 101, 110, 116, 45, 108, 101, 110, 103, 116, 104];
    assert(r@ =~= content_length_name());
    r
}

fn bytes_sse_name() -> (r: Vec<u8>)
    ensures
        r@ == sse_name(),
{
    let r: Vec<u8> = vec![
        120u8, 45, 97, 109, 122, 45, 115, 101, 114, 118, 101, 114, 45, 115, 105, 100, 101, 45, 101,
        110, 99, 114, 121, 112, 116, 105, 111, 110,
    ];
    assert(r@ =~= sse_name());
    r
}

fn bytes_version_name() -> (r: Vec<u8>)
    ensures
        r@ == version_name(),
{
    let r: Vec<u8> = vec![120u8, 45, 97, 109, 122, 45, 118, 101, 114, 115, 105, 111, 110, 45, 105, 100];
    assert(r@ =~= version_name());
    r
}

fn bytes_last_modified_name() -> (r: Vec<u8>)
    ensures
        r@ == last_modified_name(),
{
    let r: Vec<u8> = vec![108u8, 97, 115, 116, 45, 109, 111, 100, 105, 102, 105, 101, 100];
    assert(r@ =~= last_modified_name());
    r
}

/// Whether a status is a success.
pub open spec fn is_2xx(status: u16) -> bool {
    200 <= status < 300
}

/// The etag a response reports, unquoted, or empty when it reports
/// none.
pub open spec fn spec_meta_etag(hv: Seq<(Seq<u8>, Seq<u8>)>) -> Seq<u8> {
    match spec_get_header(hv, etag_name()) {
        Some(v) => strip_quotes(v),
        None => Seq::empty(),
    }
}

/// The content length a response reports; absent or unreadable is 0.
pub open spec fn spec_meta_size(hv: Seq<(Seq<u8>, Seq<u8>)>) -> int {
    match spec_get_header(hv, content_length_name()) {
        Some(v) => if is_digits(v) && dec_val(v) <= u64::MAX {
            dec_val(v)
        } else {
            0
        },
        None => 0,
    }
}

fn meta_etag(headers: &Vec<HttpHeader>) -> (r: Vec<u8>)
    ensures
        r@ == spec_meta_etag(header_views(headers@)),
{
    match get_header(headers, &bytes_etag_name()) {
        Some(v) => strip_quotes_vec(&v),
        None => Vec::new(),
    }
}

fn meta_size(headers: &Vec<HttpHeader>) -> (r: u64)
    ensures
        r as int == spec_meta_size(header_views(headers@)),
{
    match get_header(headers, &bytes_content_length_name()) {
        Some(v) => match parse_u64(&v) {
            Some(n) => n,
            None => 0,
        },
        None => 0,
    }
}

fn meta_rest(headers: &Vec<HttpHeader>) -> (r: (bool, Option<Vec<u8>>, Option<Vec<u8>>))
    ensures
        r.0 == (spec_get_header(header_views(headers@), sse_name()) is Some),
        match r.1 {
            Some(v) => spec_get_header(header_views(headers@), version_name()) == Some(v@),
            None => spec_get_header(header_views(headers@), version_name()) is None,
        },
        match r.2 {
            Some(v) => spec_get_header(header_views(headers@), last_modified_name()) == Some(v@),
            None => spec_get_header(header_views(headers@), last_modified_name()) is None,
        },
{
    let sse = match get_header(headers, &bytes_sse_name()) {
        Some(_) => true,
        None => false,
    };
    let version = get_header(headers, &bytes_version_name());
    let modified = get_header(headers, &bytes_last_modified_name());
    (sse, version, modified)
}

/// Interprets a head response.
///
/// A 404 is the legitimate miss, `NotFound`; a 2xx carries the
/// object's metadata in its headers; any other status is a
/// `HeadError` with the status and a body excerpt.
pub fn head_object_response(resp: &RawResponse) -> (r: Result<ObjectMetadata, S3Result>)
    ensures
        resp.status == 404 ==> (r matches Err(e) && e is NotFound),
        is_2xx(resp.status) ==> (r matches Ok(m) && {
            &&& m.etag@ == spec_meta_etag(header_views(resp.headers@))
            &&& m.size as int == spec_meta_size(header_views(resp.headers@))
            &&& m.server_side_encryption == (spec_get_header(header_views(resp.headers@), sse_name())
                is Some)
            &&& (match m.version_id {
                Some(v) => spec_get_header(header_views(resp.headers@), version_name()) == Some(v@),
                None => spec_get_header(header_views(resp.headers@), version_name()) is None,
            })
            &&& (match m.last_modified {
                Some(v) => spec_get_header(header_views(resp.headers@), last_modified_name())
                    == Some(v@),
                None => spec_get_header(header_views(resp.headers@), last_modified_name()) is None,
            })
        }),
        !(resp.status == 404 || is_2xx(resp.status)) ==> (r matches Err(e) && e matches
            S3Result::HeadError { status, body_excerpt } && status == resp.status && body_excerpt@
            == spec_excerpt(resp.body@)),
{
    if resp.status == 404 {
        return Err(S3Result::NotFound);
    }
    if 200 <= resp.status && resp.status < 300 {
        let etag = meta_etag(&resp.headers);
        let size = meta_size(&resp.headers);
        let (server_side_encryption, version_id, last_modified) = meta_rest(&resp.headers);
        return Ok(
            ObjectMetadata { etag, size, server_side_encryption, version_id, last_modified },
        );
    }
    Err(S3Result::HeadError { status: resp.status, body_excerpt: excerpt_vec(&resp.body) })
}

/// Interprets a put response.
///
/// A 2xx yields the stored object's metadata: the provider's etag
/// when it reports one (unquoted), else the locally computed one, and
/// the size of the payload that was sent.  Any other status is an
/// `UploadFailure` with the status and a body excerpt.
pub fn put_object_response(resp: &RawResponse, payload_len: u64, local_etag_hex: &Vec<u8>) -> (r:
    Result<ObjectMetadata, S3Result>)
    ensures
        is_2xx(resp.status) ==> (r matches Ok(m) && {
            &&& m.etag@ == (match spec_get_header(header_views(resp.headers@), etag_name()) {
                Some(v) => strip_quotes(v),
                None => local_etag_hex@,
            })
            &&& m.size == payload_len
            &&& m.server_side_encryption == (spec_get_header(header_views(resp.headers@), sse_name())
                is Some)
            &&& (match m.version_id {
                Some(v) => spec_get_header(header_views(resp.headers@), version_name()) == Some(v@),
                None => spec_get_header(header_views(resp.headers@), version_name()) is None,
            })
            &&& (match m.last_modified {
                Some(v) => spec_get_header(header_views(resp.headers@), last_modified_name())
                    == Some(v@),
                None => spec_get_header(header_views(resp.headers@), last_modified_name()) is None,
            })
        }),
        !is_2xx(resp.status) ==> (r matches Err(e) && e matches S3Result::UploadFailure {
            status,
            body_excerpt,
        } && status == resp.status && body_excerpt@ == spec_excerpt(resp.body@)),
{
    if !(200 <= resp.status && resp.status < 300) {
        return Err(
            S3Result::UploadFailure { status: resp.status, body_excerpt: excerpt_vec(&resp.body) },
        );
    }
    let etag = match get_header(&resp.headers, &bytes_etag_name()) {
        Some(v) => strip_quotes_vec(&v),
        None => copy_bytes(local_etag_hex),
    };
    let (server_side_encryption, version_id, last_modified) = meta_rest(&resp.headers);
    Ok(
        ObjectMetadata {
            etag,
            size: payload_len,
            server_side_encryption,
            version_id,
            last_modified,
        },
    )
}

/// Interprets a delete response: any 2xx (the provider sends 204 or
/// 200) is success; any other status is a `DeleteFailure` with the
/// status and a body excerpt.
pub fn delete_object_response(resp: &RawResponse) -> (r: Result<(), S3Result>)
    ensures
        is_2xx(resp.status) ==> r is Ok,
        !is_2xx(resp.status) ==> (r matches Err(e) && e matches S3Result::DeleteFailure {
            status,
            body_excerpt,
        } && status == resp.status && body_excerpt@ == spec_excerpt(resp.body@)),
{
    if 200 <= resp.status && resp.status < 300 {
        Ok(())
    } else {
        Err(
            S3Result::DeleteFailure { status: resp.status, body_excerpt: excerpt_vec(&resp.body) },
        )
    }
}

// ---------------------------------------------------------------------
// Request builders.
// ---------------------------------------------------------------------

/// `GET`
pub open spec fn method_get() -> Seq<u8> {
    seq![71u8, 69, 84]
}

/// `HEAD`
pub open spec fn method_head() -> Seq<u8> {
    seq![72u8, 69, 65, 68]
}

/// `PUT`
pub open spec fn method_put() -> Seq<u8> {
    seq![80u8, 85, 84]
}

/// `DELETE`
pub open spec fn method_delete() -> Seq<u8> {
    seq![68u8, 69, 76, 69, 84, 69]
}

/// `host`
pub open spec fn host_name() -> Seq<u8> {
    seq![104u8, 111, 115, 116]
}

/// The host header value: the endpoint's host under path-style
/// addressing, else the bucket as a subdomain of it.
pub open spec fn spec_host_value(ep: Endpoint, bucket: Seq<u8>) -> Seq<u8> {
    if ep.use_path_style {
        ep.host@
    } else {
        bucket + seq![46u8] + ep.host@
    }
}

/// The request path of a bucket operation (listing).
pub open spec fn spec_bucket_path(ep: Endpoint, bucket: Seq<u8>) -> Seq<u8> {
    if ep.use_path_style {
        seq![47u8] + bucket
    } else {
        seq![47u8]
    }
}

/// The request path of an object operation.
pub open spec fn spec_object_path(ep: Endpoint, bucket: Seq<u8>, key: Seq<u8>) -> Seq<u8> {
    if ep.use_path_style {
        seq![47u8] + bucket + seq![47u8] + spec_uri_encode(key, true)
    } else {
        seq![47u8] + spec_uri_encode(key, true)
    }
}

/// `continuation-token=`
pub open spec fn continuation_key() -> Seq<u8> {
    seq![99u8, 111, 110, 116, 105, 110, 117, 97, 116, 105, 111, 110, 45, 116, 111, 107, 101, 110, 61]
}

/// `list-type=2`
pub open spec fn list_type_pair() -> Seq<u8> {
    seq![108u8, 105, 115, 116, 45, 116, 121, 112, 101, 61, 50]
}

/// `prefix=`
pub open spec fn prefix_key() -> Seq<u8> {
    seq![112u8, 114, 101, 102, 105, 120, 61]
}

/// The canonical query of a list request: the `list-type=2` marker,
/// the continuation token when one is held, the prefix when one is
/// asked for, keys in canonical (sorted) order, values
/// percent-encoded.
pub open spec fn spec_list_query(prefix: Option<Seq<u8>>, token: Option<Seq<u8>>) -> Seq<u8> {
    let base = match token {
        Some(t) => continuation_key() + spec_uri_encode(t, false) + seq![38u8] + list_type_pair(),
        None => list_type_pair(),
    };
    match prefix {
        Some(p) => base + seq![38u8] + prefix_key() + spec_uri_encode(p, false),
        None => base,
    }
}

/// The view of an optional borrowed byte string.
pub open spec fn opt_bytes_view(o: Option<&Vec<u8>>) -> Option<Seq<u8>> {
    match o {
        Some(v) => Some(v@),
        None => None,
    }
}

/// The view of an optional owned byte string.
pub open spec fn opt_owned_view(o: Option<Vec<u8>>) -> Option<Seq<u8>> {
    match o {
        Some(v) => Some(v@),
        None => None,
    }
}

/// The signed headers of a list request.
pub open spec fn spec_list_signed(
    ep: Endpoint,
    creds: Credentials,
    bucket: Seq<u8>,
    prefix: Option<Seq<u8>>,
    token: Option<Seq<u8>>,
    ts: UtcTimestamp,
) -> Seq<(Seq<u8>, Seq<u8>)> {
    spec_signed_headers(
        seq![(host_name(), spec_host_value(ep, bucket))],
        method_get(),
        spec_bucket_path(ep, bucket),
        spec_list_query(prefix, token),
        hex_of(sha256_of(Seq::<u8>::empty())),
        creds.access_key_id@,
        creds.secret_access_key@,
        opt_owned_view(creds.session_token),
        ep.region@,
        ts,
    )
}

/// The signed headers of an object request.
pub open spec fn spec_object_signed(
    ep: Endpoint,
    creds: Credentials,
    bucket: Seq<u8>,
    key: Seq<u8>,
    method: Seq<u8>,
    payload: Seq<u8>,
    ts: UtcTimestamp,
) -> Seq<(Seq<u8>, Seq<u8>)> {
    spec_signed_headers(
        seq![(host_name(), spec_host_value(ep, bucket))],
        method,
        spec_object_path(ep, bucket, key),
        Seq::empty(),
        hex_of(sha256_of(payload)),
        creds.access_key_id@,
        creds.secret_access_key@,
        opt_owned_view(creds.session_token),
        ep.region@,
        ts,
    )
}

fn host_header(ep: &Endpoint, bucket: &Vec<u8>) -> (h: HttpHeader)
    requires
        endpoint_ok(*ep),
        bucket_ok(bucket@),
    ensures
        header_view(h) == (host_name(), spec_host_value(*ep, bucket@)),
        crate::signer::header_ok(header_view(h)),
{
    let name: Vec<u8> = vec![104u8, 111, 115, 116];
    assert(name@ =~= host_name());
    let value = if ep.use_path_style {
        copy_bytes(&ep.host)
    } else {
        let mut v = copy_bytes(bucket);
        v.push(46);
        append_bytes(&mut v, &ep.host);
        assert(v@ =~= bucket@ + seq![46u8] + ep.host@);
        v
    };
    proof {
        assert(crate::signer::header_name_ok(host_name()));
        assert(crate::signer::header_value_ok(value@));
        assert(crate::headers::lower_bytes(host_name()) =~= host_name());
        assert(host_name().len() != crate::signer::auth_name().len());
    }
    HttpHeader { name, value }
}

fn empty_payload_hash() -> (r: Vec<u8>)
    ensures
        r@ == hex_of(sha256_of(Seq::<u8>::empty())),
{
    let e: Vec<u8> = Vec::new();
    let h = sha256(&e);
    hex_encode(&h)
}

fn sign_ok_draft(draft: RequestDraft, creds: &Credentials, region: &Vec<u8>, ts: &UtcTimestamp) -> (r:
    SignedRequest)
    requires
        crate::signer::draft_headers_ok(header_views(draft.headers@)),
    ensures
        r.method@ == draft.method@,
        r.uri_path@ == draft.uri_path@,
        r.query@ == draft.query@,
        r.payload_hash_hex@ == draft.payload_hash_hex@,
        r.body@ == draft.body@,
        header_views(r.headers@) == spec_signed_headers(
            header_views(draft.headers@),
            draft.method@,
            draft.uri_path@,
            draft.query@,
            draft.payload_hash_hex@,
            creds.access_key_id@,
            creds.secret_access_key@,
            opt_owned_view(creds.session_token),
            region@,
            *ts,
        ),
        carries_one_signature(header_views(r.headers@)),
{
    match sign_request(draft, creds, region, ts) {
        Ok(sr) => sr,
        Err(_) => {
            proof {
                assert(false);
            }
            vstd::pervasive::unreached()
        },
    }
}

/// Builds the signed request of one list page: a GET against the
/// bucket root with the `list-type=2` marker, the prefix when one is
/// asked for, and the continuation token of the page.
pub fn build_list_request(
    ep: &Endpoint,
    creds: &Credentials,
    bucket: &Vec<u8>,
    prefix: Option<&Vec<u8>>,
    token: Option<&Vec<u8>>,
    ts: &UtcTimestamp,
) -> (r: SignedRequest)
    requires
        endpoint_ok(*ep),
        credentials_ok(*creds),
        bucket_ok(bucket@),
    ensures
        r.method@ == method_get(),
        r.uri_path@ == spec_bucket_path(*ep, bucket@),
        r.query@ == spec_list_query(opt_bytes_view(prefix), opt_bytes_view(token)),
        r.payload_hash_hex@ == hex_of(sha256_of(Seq::<u8>::empty())),
        r.body@.len() == 0,
        header_views(r.headers@) == spec_list_signed(
            *ep,
            *creds,
            bucket@,
            opt_bytes_view(prefix),
            opt_bytes_view(token),
            *ts,
        ),
        carries_one_signature(header_views(r.headers@)),
{
    let method: Vec<u8> = vec![71u8, 69, 84];
    assert(method@ =~= method_get());
    let mut uri_path: Vec<u8> = vec![47u8];
    if ep.use_path_style {
        append_bytes(&mut uri_path, bucket);
    }
    assert(uri_path@ =~= spec_bucket_path(*ep, bucket@));

    let mut query: Vec<u8> = Vec::new();
    match token {
        Some(t) => {
            let mut ck: Vec<u8> = vec![
                99u8, 111, 110, 116, 105, 110, 117, 97, 116, 105, 111, 110, 45, 116, 111, 107, 101,
                110, 61,
            ];
            assert(ck@ =~= continuation_key());
            append_bytes(&mut query, &ck);
            let enc = uri_encode(t, false);
            append_bytes(&mut query, &enc);
            query.push(38);
        },
        None => {},
    }
    let mut lt: Vec<u8> = vec![108u8, 105, 115, 116, 45, 116, 121, 112, 101, 61, 50];
    assert(lt@ =~= list_type_pair());
    append_bytes(&mut query, &lt);
    match prefix {
        Some(p) => {
            query.push(38);
            let mut pk: Vec<u8> = vec![112u8, 114, 101, 102, 105, 120, 61];
            assert(pk@ =~= prefix_key());
            append_bytes(&mut query, &pk);
            let enc = uri_encode(p, false);
            append_bytes(&mut query, &enc);
        },
        None => {},
    }
    assert(query@ =~= spec_list_query(opt_bytes_view(prefix), opt_bytes_view(token)));

    let h = host_header(ep, bucket);
    let headers: Vec<HttpHeader> = vec![h];
    assert(header_views(headers@) =~= seq![(host_name(), spec_host_value(*ep, bucket@))]);
    assert(crate::signer::draft_headers_ok(header_views(headers@)));
    let draft = RequestDraft {
        method,
        uri_path,
        query,
        headers,
        payload_hash_hex: empty_payload_hash(),
        body: Vec::new(),
    };
    sign_ok_draft(draft, creds, &ep.region, ts)
}

fn build_object_request(
    method: Vec<u8>,
    ep: &Endpoint,
    creds: &Credentials,
    bucket: &Vec<u8>,
    key: &Vec<u8>,
    payload: Vec<u8>,
    ts: &UtcTimestamp,
) -> (r: SignedRequest)
    requires
        endpoint_ok(*ep),
        credentials_ok(*creds),
        bucket_ok(bucket@),
    ensures
        r.method@ == method@,
        r.uri_path@ == spec_object_path(*ep, bucket@, key@),
        r.query@.len() == 0,
        r.payload_hash_hex@ == hex_of(sha256_of(payload@)),
        r.body@ == payload@,
        header_views(r.headers@) == spec_object_signed(
            *ep,
            *creds,
            bucket@,
            key@,
            method@,
            payload@,
            *ts,
        ),
        carries_one_signature(header_views(r.headers@)),
{
    let mut uri_path: Vec<u8> = vec![47u8];
    if ep.use_path_style {
        append_bytes(&mut uri_path, bucket);
        uri_path.push(47);
    }
    let enc = uri_encode(key, true);
    append_bytes(&mut uri_path, &enc);
    assert(uri_path@ =~= spec_object_path(*ep, bucket@, key@));

    let hash_raw = sha256(&payload);
    let payload_hash_hex = hex_encode(&hash_raw);

    let h = host_header(ep, bucket);
    let headers: Vec<HttpHeader> = vec![h];
    assert(header_views(headers@) =~= seq![(host_name(), spec_host_value(*ep, bucket@))]);
    assert(crate::signer::draft_headers_ok(header_views(headers@)));
    let draft = RequestDraft {
        method,
        uri_path,
        query: Vec::new(),
        headers,
        payload_hash_hex,
        body: payload,
    };
    let r = sign_ok_draft(draft, creds, &ep.region, ts);
    assert(r.query@ =~= Seq::<u8>::empty());
    r
}

/// Builds the signed HEAD request of an object.
pub fn build_head_request(
    ep: &Endpoint,
    creds: &Credentials,
    bucket: &Vec<u8>,
    key: &Vec<u8>,
    ts: &UtcTimestamp,
) -> (r: SignedRequest)
    requires
        endpoint_ok(*ep),
        credentials_ok(*creds),
        bucket_ok(bucket@),
    ensures
        r.method@ == method_head(),
        r.uri_path@ == spec_object_path(*ep, bucket@, key@),
        r.query@.len() == 0,
        r.payload_hash_hex@ == hex_of(sha256_of(Seq::<u8>::empty())),
        r.body@.len() == 0,
        header_views(r.headers@) == spec_object_signed(
            *ep,
            *creds,
            bucket@,
            key@,
            method_head(),
            Seq::empty(),
            *ts,
        ),
        carries_one_signature(header_views(r.headers@)),
{
    let method: Vec<u8> = vec![72u8, 69, 65, 68];
    assert(method@ =~= method_head());
    let r = build_object_request(method, ep, creds, bucket, key, Vec::new(), ts);
    assert(r.body@ =~= Seq::<u8>::empty());
    r
}

/// Builds the signed PUT request of an object: the payload is the
/// body, and its SHA-256 is bound into the signature.
pub fn build_put_request(
    ep: &Endpoint,
    creds: &Credentials,
    bucket: &Vec<u8>,
    key: &Vec<u8>,
    payload: Vec<u8>,
    ts: &UtcTimestamp,
) -> (r: SignedRequest)
    requires
        endpoint_ok(*ep),
        credentials_ok(*creds),
        bucket_ok(bucket@),
    ensures
        r.method@ == method_put(),
        r.uri_path@ == spec_object_path(*ep, bucket@, key@),
        r.query@.len() == 0,
        r.payload_hash_hex@ == hex_of(sha256_of(payload@)),
        r.body@ == payload@,
        header_views(r.headers@) == spec_object_signed(
            *ep,
            *creds,
            bucket@,
            key@,
            method_put(),
            payload@,
            *ts,
        ),
        carries_one_signature(header_views(r.headers@)),
{
    let method: Vec<u8> = vec![80u8, 85, 84];
    assert(method@ =~= method_put());
    build_object_request(method, ep, creds, bucket, key, payload, ts)
}

/// Builds the signed DELETE request of an object.
pub fn build_delete_request(
    ep: &Endpoint,
    creds: &Credentials,
    bucket: &Vec<u8>,
    key: &Vec<u8>,
    ts: &UtcTimestamp,
) -> (r: SignedRequest)
    requires
        endpoint_ok(*ep),
        credentials_ok(*creds),
        bucket_ok(bucket@),
    ensures
        r.method@ == method_delete(),
        r.uri_path@ == spec_object_path(*ep, bucket@, key@),
        r.query@.len() == 0,
        r.payload_hash_hex@ == hex_of(sha256_of(Seq::<u8>::empty())),
        r.body@.len() == 0,
        header_views(r.headers@) == spec_object_signed(
            *ep,
            *creds,
            bucket@,
            key@,
            method_delete(),
            Seq::empty(),
            *ts,
        ),
        carries_one_signature(header_views(r.headers@)),
{
    let method: Vec<u8> = vec![68u8, 69, 76, 69, 84, 69];
    assert(method@ =~= method_delete());
    let r = build_object_request(method, ep, creds, bucket, key, Vec::new(), ts);
    assert(r.body@ =~= Seq::<u8>::empty());
    r
}

// ---------------------------------------------------------------------
// Listing pagination.
// ---------------------------------------------------------------------

/// The state of one listing: the accumulated summaries and the
/// continuation token that gates the next page.  Strictly sequential:
/// each page's token is consumed to build the next request, until a
/// page carries none.
#[derive(Debug, Clone)]
pub struct ObjectLister {
    pub bucket: Vec<u8>,
    pub prefix: Option<Vec<u8>>,
    pub token: Option<Vec<u8>>,
    pub objects: Vec<ObjectSummary>,
    pub done: bool,
}

impl ObjectLister {
    /// Starts a listing: nothing accumulated, no token, not done.
    pub fn begin(bucket: Vec<u8>, prefix: Option<Vec<u8>>) -> (r: ObjectLister)
        ensures
            r.bucket@ == bucket@,
            opt_owned_view(r.prefix) == opt_owned_view(prefix),
            r.token is None,
            r.objects@.len() == 0,
            !r.done,
    {
        ObjectLister { bucket, prefix, token: None, objects: Vec::new(), done: false }
    }

    /// The signed request of the next page, gated by the current
    /// continuation token.
    pub fn next_request(&self, ep: &Endpoint, creds: &Credentials, ts: &UtcTimestamp) -> (r:
        SignedRequest)
        requires
            !self.done,
            endpoint_ok(*ep),
            credentials_ok(*creds),
            bucket_ok(self.bucket@),
        ensures
            r.method@ == method_get(),
            r.uri_path@ == spec_bucket_path(*ep, self.bucket@),
            r.query@ == spec_list_query(opt_owned_view(self.prefix), opt_owned_view(self.token)),
            header_views(r.headers@) == spec_list_signed(
                *ep,
                *creds,
                self.bucket@,
                opt_owned_view(self.prefix),
                opt_owned_view(self.token),
                *ts,
            ),
            carries_one_signature(header_views(r.headers@)),
    {
        let prefix = match self.prefix {
            Some(ref p) => Some(p),
            None => None,
        };
        let token = match self.token {
            Some(ref t) => Some(t),
            None => None,
        };
        build_list_request(ep, creds, &self.bucket, prefix, token, ts)
    }

    /// Absorbs one page.
    ///
    /// On a 2xx the page's summaries are appended, in document order,
    /// to what earlier pages brought, and the page's continuation
    /// token (or its absence) decides whether the listing is done.
    /// On any other status the state is left unchanged and the page
    /// is a `ListFailure` with the status and a body excerpt; an
    /// empty page is success, not an error.
    pub fn absorb_page(&mut self, resp: &RawResponse) -> (r: Result<(), S3Result>)
        requires
            !old(self).done,
        ensures
            r is Ok <==> is_2xx(resp.status),
            r is Ok ==> {
                &&& summary_views(final(self).objects@) == summary_views(old(self).objects@)
                    + spec_page_objects(resp.body@)
                &&& opt_owned_view(final(self).token) == spec_page_token(resp.body@)
                &&& final(self).done == (spec_page_token(resp.body@) is None)
                &&& final(self).bucket@ == old(self).bucket@
                &&& opt_owned_view(final(self).prefix) == opt_owned_view(old(self).prefix)
            },
            r matches Err(e) ==> (e matches S3Result::ListFailure { status, body_excerpt }
                && status == resp.status && body_excerpt@ == spec_excerpt(resp.body@)
                && *final(self) == *old(self)),
    {
        if !(200 <= resp.status && resp.status < 300) {
            return Err(
                S3Result::ListFailure {
                    status: resp.status,
                    body_excerpt: excerpt_vec(&resp.body),
                },
            );
        }
        let (mut page, token) = parse_list_page(&resp.body);
        let ghost before = self.objects@;
        let ghost parsed = page@;
        let mut k: usize = 0;
        let n = page.len();
        while k < n
            invariant
                k <= n,
                n == page@.len(),
                page@ == parsed,
                summary_views(self.objects@) =~= summary_views(before) + summary_views(
                    parsed.take(k as int),
                ),
                self.bucket@ == old(self).bucket@,
                self.prefix == old(self).prefix,
                self.token == old(self).token,
                self.done == old(self).done,
            decreases n - k,
        {
            let o = page[k].clone_summary();
            assert(summary_view(o) == summary_view(parsed[k as int]));
            let ghost pre = self.objects@;
            assert(summary_views(pre) == summary_views(before) + summary_views(
                parsed.take(k as int),
            ));
            self.objects.push(o);
            proof {
                let lhs = summary_views(self.objects@);
                let rhs = summary_views(before) + summary_views(parsed.take(k + 1));
                assert(self.objects@ == pre.push(o));
                assert forall|i: int| 0 <= i < lhs.len() implies lhs[i] == rhs[i] by {
                    if i < pre.len() {
                        assert(lhs[i] == summary_view(pre[i]));
                        assert(summary_view(pre[i]) == summary_views(pre)[i]);
                        assert(summary_views(pre)[i] == (summary_views(before) + summary_views(
                            parsed.take(k as int),
                        ))[i]);
                        if i >= before.len() {
                            assert(parsed.take(k as int)[i - before.len()] == parsed.take(k + 1)[i
                                - before.len()]);
                        }
                    } else {
                        assert(lhs[i] == summary_view(o));
                        assert(parsed.take(k + 1)[k as int] == parsed[k as int]);
                    }
                }
                assert(lhs =~= rhs);
            }
            k = k + 1;
        }
        assert(parsed.take(n as int) =~= parsed);
        let done = match token {
            Some(_) => false,
            None => true,
        };
        self.token = token;
        self.done = done;
        Ok(())
    }

    /// Whether the listing has consumed its last page.
    pub fn is_done(&self) -> (r: bool)
        ensures
            r == self.done,
    {
        self.done
    }

    /// Hands the accumulated summaries out.
    pub fn into_objects(self) -> (r: Vec<ObjectSummary>)
        ensures
            r@ == self.objects@,
    {
        self.objects
    }
}

impl ObjectSummary {
    /// A field-for-field copy of the summary.
    pub fn clone_summary(&self) -> (r: ObjectSummary)
        ensures
            summary_view(r) == summary_view(*self),
    {
        ObjectSummary {
            key: copy_bytes(&self.key),
            size: self.size,
            etag: copy_bytes(&self.etag),
            last_modified: copy_bytes(&self.last_modified),
        }
    }
}

} // verus!
