use s3_core::config::{validate_config, ConfigInput, Endpoint};
use s3_core::errors::{ConfigFault, S3Result};
use s3_core::facade::{
    build_delete_request, build_head_request, build_list_request, build_put_request,
    delete_object_response, head_object_response, parse_list_page, put_object_response,
    uri_encode, ObjectLister, RawResponse,
};
use s3_core::headers::{canonicalize_headers, HttpHeader};
use s3_core::hexenc::hex_encode;
use s3_core::signer::{format_amz_date, format_amz_datetime, sign_request, Credentials, RequestDraft, UtcTimestamp};

fn ts() -> UtcTimestamp {
    UtcTimestamp { year: 2024, month: 1, day: 2, hour: 3, minute: 4, second: 5 }
}

fn creds() -> Credentials {
    Credentials {
        access_key_id: b"AKIDEXAMPLE".to_vec(),
        secret_access_key: b"wJalrXUtnFEMI".to_vec(),
        session_token: None,
    }
}

fn endpoint() -> Endpoint {
    Endpoint { host: b"minio.local:9000".to_vec(), region: b"us-east-1".to_vec(), use_path_style: true }
}

fn header(name: &[u8], value: &[u8]) -> HttpHeader {
    HttpHeader { name: name.to_vec(), value: value.to_vec() }
}

fn draft() -> RequestDraft {
    RequestDraft {
        method: b"GET".to_vec(),
        uri_path: b"/bucket".to_vec(),
        query: b"list-type=2".to_vec(),
        headers: vec![header(b"Host", b"example.com"), header(b"X-Custom", b"  padded  ")],
        payload_hash_hex: b"e3b0c44298fc1c149afbf4c8996fb92427ae41e4649b934ca495991b7852b855".to_vec(),
        body: Vec::new(),
    }
}

#[test]
fn sign_is_deterministic() {
    let region = b"us-east-1".to_vec();
    let a = sign_request(draft(), &creds(), &region, &ts()).unwrap();
    let b = sign_request(draft(), &creds(), &region, &ts()).unwrap();
    assert_eq!(a.headers.len(), b.headers.len());
    for (ha, hb) in a.headers.iter().zip(b.headers.iter()) {
        assert_eq!(ha.name, hb.name);
        assert_eq!(ha.value, hb.value);
    }
    assert_eq!(a.method, b.method);
    assert_eq!(a.uri_path, b.uri_path);
    assert_eq!(a.query, b.query);
}

#[test]
fn signed_request_carries_one_signature_last() {
    let region = b"us-east-1".to_vec();
    let a = sign_request(draft(), &creds(), &region, &ts()).unwrap();
    let last = a.headers.last().unwrap();
    assert_eq!(last.name, b"authorization".to_vec());
    assert!(last.value.starts_with(b"AWS4-HMAC-SHA256 Credential=AKIDEXAMPLE/20240102/us-east-1/s3/aws4_request, SignedHeaders="));
    let n = a
        .headers
        .iter()
        .filter(|h| h.name == b"authorization".to_vec())
        .count();
    assert_eq!(n, 1);
}

#[test]
fn sign_rejects_malformed_headers() {
    let mut d = draft();
    d.headers.insert(0, header(b"", b"v"));
    match sign_request(d, &creds(), &b"us-east-1".to_vec(), &ts()) {
        Err(S3Result::SigningError(i)) => assert_eq!(i, 0),
        _ => panic!("an empty header name must be a signing error"),
    }
    let mut d2 = draft();
    d2.headers.push(header(b"X-Bad", b"line\nbreak"));
    assert!(matches!(
        sign_request(d2, &creds(), &b"us-east-1".to_vec(), &ts()),
        Err(S3Result::SigningError(2))
    ));
    let mut d3 = draft();
    d3.headers.push(header(b"Authorization", b"stale"));
    assert!(matches!(
        sign_request(d3, &creds(), &b"us-east-1".to_vec(), &ts()),
        Err(S3Result::SigningError(2))
    ));
}

#[test]
fn canonicalization_is_idempotent_on_a_concrete_set() {
    let hs = vec![
        header(b"X-Amz-Meta-B", b"  two  "),
        header(b"HOST", b"Example.COM"),
        header(b"X-Amz-Meta-A", b"one"),
    ];
    let once = canonicalize_headers(hs);
    let copy: Vec<HttpHeader> = once
        .iter()
        .map(|h| header(&h.name, &h.value))
        .collect();
    let twice = canonicalize_headers(copy);
    assert_eq!(once.len(), twice.len());
    for (a, b) in once.iter().zip(twice.iter()) {
        assert_eq!(a.name, b.name);
        assert_eq!(a.value, b.value);
    }
    assert_eq!(once[0].name, b"host".to_vec());
    assert_eq!(once[0].value, b"Example.COM".to_vec());
    assert_eq!(once[1].name, b"x-amz-meta-a".to_vec());
    assert_eq!(once[1].value, b"one".to_vec());
    assert_eq!(once[2].name, b"x-amz-meta-b".to_vec());
    assert_eq!(once[2].value, b"two".to_vec());
}

#[test]
fn canonicalization_is_stable_for_equal_names() {
    let hs = vec![header(b"X-Dup", b"first"), header(b"x-dup", b"second")];
    let out = canonicalize_headers(hs);
    assert_eq!(out[0].value, b"first".to_vec());
    assert_eq!(out[1].value, b"second".to_vec());
}

#[test]
fn empty_bucket_listing_is_empty_not_an_error() {
    let mut lister = ObjectLister::begin(b"test-bucket".to_vec(), None);
    let page = RawResponse {
        status: 200,
        headers: Vec::new(),
        body: b"<?xml version=\"1.0\"?><ListBucketResult><KeyCount>0</KeyCount></ListBucketResult>"
            .to_vec(),
    };
    let r = lister.absorb_page(&page);
    assert!(r.is_ok());
    assert!(lister.is_done());
    let objects = lister.into_objects();
    assert_eq!(objects.len(), 0);
}

fn list_page_body(keys: &[(&str, u64)], token: Option<&str>) -> Vec<u8> {
    let mut body = String::from("<?xml version=\"1.0\"?><ListBucketResult>");
    for (k, s) in keys {
        body.push_str(&format!(
            "<Contents><Key>{}</Key><Size>{}</Size><ETag>\"etag-{}\"</ETag><LastModified>2024-01-02T00:00:00Z</LastModified></Contents>",
            k, s, k
        ));
    }
    if let Some(t) = token {
        body.push_str(&format!("<NextContinuationToken>{}</NextContinuationToken>", t));
    }
    body.push_str("</ListBucketResult>");
    body.into_bytes()
}

#[test]
fn listing_concatenates_three_pages_in_order() {
    let mut lister = ObjectLister::begin(b"test-bucket".to_vec(), None);
    let pages = vec![
        list_page_body(&[("a", 1), ("b", 2)], Some("tok1")),
        list_page_body(&[("c", 3), ("d", 4)], Some("tok2")),
        list_page_body(&[("e", 5)], None),
    ];
    let expected_tokens: Vec<Option<&[u8]>> = vec![Some(b"tok1"), Some(b"tok2"), None];
    for (body, want_token) in pages.into_iter().zip(expected_tokens.into_iter()) {
        assert!(!lister.is_done());
        let req = lister.next_request(&endpoint(), &creds(), &ts());
        match &lister.token {
            Some(t) => {
                let mut expected = b"continuation-token=".to_vec();
                expected.extend_from_slice(t);
                expected.extend_from_slice(b"&list-type=2");
                assert_eq!(req.query, expected);
            }
            None => assert_eq!(req.query, b"list-type=2".to_vec()),
        }
        let resp = RawResponse { status: 200, headers: Vec::new(), body };
        lister.absorb_page(&resp).unwrap();
        assert_eq!(lister.token.as_deref(), want_token);
    }
    assert!(lister.is_done());
    let objects = lister.into_objects();
    let keys: Vec<Vec<u8>> = objects.iter().map(|o| o.key.clone()).collect();
    assert_eq!(
        keys,
        vec![b"a".to_vec(), b"b".to_vec(), b"c".to_vec(), b"d".to_vec(), b"e".to_vec()]
    );
    let sizes: Vec<u64> = objects.iter().map(|o| o.size).collect();
    assert_eq!(sizes, vec![1, 2, 3, 4, 5]);
    assert_eq!(objects[0].etag, b"etag-a".to_vec());
    assert_eq!(objects[0].last_modified, b"2024-01-02T00:00:00Z".to_vec());
}

#[test]
fn listing_failure_keeps_state() {
    let mut lister = ObjectLister::begin(b"test-bucket".to_vec(), None);
    let resp = RawResponse { status: 500, headers: Vec::new(), body: b"boom".to_vec() };
    match lister.absorb_page(&resp) {
        Err(S3Result::ListFailure { status, body_excerpt }) => {
            assert_eq!(status, 500);
            assert_eq!(body_excerpt, b"boom".to_vec());
        }
        _ => panic!("a non-2xx page must be a list failure"),
    }
    assert!(!lister.is_done());
    assert_eq!(lister.into_objects().len(), 0);
}

#[test]
fn head_404_is_not_found_not_a_transport_error() {
    let resp = RawResponse { status: 404, headers: Vec::new(), body: Vec::new() };
    match head_object_response(&resp) {
        Err(S3Result::NotFound) => {}
        _ => panic!("a 404 head must be NotFound"),
    }
}

#[test]
fn head_maps_metadata_headers() {
    let resp = RawResponse {
        status: 200,
        headers: vec![
            header(b"ETag", b"\"abc123\""),
            header(b"Content-Length", b"42"),
            header(b"x-amz-server-side-encryption", b"AES256"),
            header(b"x-amz-version-id", b"v7"),
            header(b"Last-Modified", b"Tue, 02 Jan 2024 03:04:05 GMT"),
        ],
        body: Vec::new(),
    };
    let m = head_object_response(&resp).unwrap();
    assert_eq!(m.etag, b"abc123".to_vec());
    assert_eq!(m.size, 42);
    assert!(m.server_side_encryption);
    assert_eq!(m.version_id, Some(b"v7".to_vec()));
    assert_eq!(m.last_modified, Some(b"Tue, 02 Jan 2024 03:04:05 GMT".to_vec()));
}

#[test]
fn head_other_status_is_head_error() {
    let resp = RawResponse { status: 403, headers: Vec::new(), body: b"denied".to_vec() };
    match head_object_response(&resp) {
        Err(S3Result::HeadError { status, body_excerpt }) => {
            assert_eq!(status, 403);
            assert_eq!(body_excerpt, b"denied".to_vec());
        }
        _ => panic!("a 403 head must be a head error"),
    }
}

#[test]
fn put_of_zero_bytes_reports_size_zero() {
    let payload: Vec<u8> = Vec::new();
    let req = build_put_request(
        &endpoint(),
        &creds(),
        &b"test-bucket".to_vec(),
        &b"empty.txt".to_vec(),
        payload,
        &ts(),
    );
    assert_eq!(req.body.len(), 0);
    let resp = RawResponse {
        status: 200,
        headers: vec![header(b"ETag", b"\"d41d8\"")],
        body: Vec::new(),
    };
    let m = put_object_response(&resp, 0, &req.payload_hash_hex).unwrap();
    assert_eq!(m.size, 0);
    assert_eq!(m.etag, b"d41d8".to_vec());
}

#[test]
fn put_without_etag_falls_back_to_local_hash() {
    let resp = RawResponse { status: 200, headers: Vec::new(), body: Vec::new() };
    let local = b"cafe".to_vec();
    let m = put_object_response(&resp, 9, &local).unwrap();
    assert_eq!(m.etag, b"cafe".to_vec());
    assert_eq!(m.size, 9);
}

#[test]
fn put_non_2xx_is_upload_failure() {
    let resp = RawResponse { status: 507, headers: Vec::new(), body: b"full".to_vec() };
    match put_object_response(&resp, 3, &b"x".to_vec()) {
        Err(S3Result::UploadFailure { status, body_excerpt }) => {
            assert_eq!(status, 507);
            assert_eq!(body_excerpt, b"full".to_vec());
        }
        _ => panic!("a 507 put must be an upload failure"),
    }
}

#[test]
fn upload_then_delete_round() {
    let bucket = b"test-bucket".to_vec();
    let key = b"test_file.txt".to_vec();
    let payload = b"hello".to_vec();
    let req = build_put_request(&endpoint(), &creds(), &bucket, &key, payload, &ts());
    assert_eq!(req.method, b"PUT".to_vec());
    assert_eq!(req.uri_path, b"/test-bucket/test_file.txt".to_vec());
    assert_eq!(req.body, b"hello".to_vec());
    let put_resp = RawResponse {
        status: 200,
        headers: vec![header(b"ETag", b"\"abc123\"")],
        body: Vec::new(),
    };
    let m = put_object_response(&put_resp, 5, &req.payload_hash_hex).unwrap();
    assert_eq!(m.etag, b"abc123".to_vec());
    assert_eq!(m.size, 5);
    let dreq = build_delete_request(&endpoint(), &creds(), &bucket, &key, &ts());
    assert_eq!(dreq.method, b"DELETE".to_vec());
    let del_resp = RawResponse { status: 204, headers: Vec::new(), body: Vec::new() };
    assert!(delete_object_response(&del_resp).is_ok());
}

#[test]
fn delete_non_2xx_is_delete_failure() {
    let resp = RawResponse { status: 409, headers: Vec::new(), body: b"conflict".to_vec() };
    match delete_object_response(&resp) {
        Err(S3Result::DeleteFailure { status, body_excerpt }) => {
            assert_eq!(status, 409);
            assert_eq!(body_excerpt, b"conflict".to_vec());
        }
        _ => panic!("a 409 delete must be a delete failure"),
    }
}

#[test]
fn parse_list_page_reads_fields() {
    let body = list_page_body(&[("dir/x.txt", 1234)], Some("next"));
    let (objs, token) = parse_list_page(&body);
    assert_eq!(objs.len(), 1);
    assert_eq!(objs[0].key, b"dir/x.txt".to_vec());
    assert_eq!(objs[0].size, 1234);
    assert_eq!(objs[0].etag, b"etag-dir/x.txt".to_vec());
    assert_eq!(token, Some(b"next".to_vec()));
}

#[test]
fn hex_encoding_is_lower_case_two_digits() {
    assert_eq!(hex_encode(&vec![0x00, 0xab, 0xff]), b"00abff".to_vec());
    assert_eq!(hex_encode(&Vec::new()), Vec::<u8>::new());
}

#[test]
fn sha256_wrapper_digests() {
    let h = s3_core::crypto::sha256(&b"abc".to_vec());
    assert_eq!(
        hex_encode(&h),
        b"ba7816bf8f01cfea414140de5dae2223b00361a396177a9cb410ff61f20015ad".to_vec()
    );
}

#[test]
fn hmac_wrapper_tags() {
    let key = vec![0x0bu8; 20];
    let tag = s3_core::crypto::hmac_sha256(&key, &b"Hi There".to_vec());
    assert_eq!(
        hex_encode(&tag),
        b"b0344c61d8db38535ca8afceaf0bf12b881dc200c9833da726e9376c2e32cff7".to_vec()
    );
}

#[test]
fn empty_payload_hash_is_the_digest_of_nothing() {
    let req = build_head_request(
        &endpoint(),
        &creds(),
        &b"test-bucket".to_vec(),
        &b"k".to_vec(),
        &ts(),
    );
    assert_eq!(
        req.payload_hash_hex,
        b"e3b0c44298fc1c149afbf4c8996fb92427ae41e4649b934ca495991b7852b855".to_vec()
    );
    assert_eq!(req.method, b"HEAD".to_vec());
}

#[test]
fn uri_encoding_keeps_or_encodes_slashes() {
    assert_eq!(uri_encode(&b"a b/c".to_vec(), true), b"a%20b/c".to_vec());
    assert_eq!(uri_encode(&b"a b/c".to_vec(), false), b"a%20b%2Fc".to_vec());
    assert_eq!(uri_encode(&b"A-z_0.~".to_vec(), false), b"A-z_0.~".to_vec());
}

#[test]
fn timestamps_render_fixed_width() {
    let t = ts();
    assert_eq!(format_amz_date(&t), b"20240102".to_vec());
    assert_eq!(format_amz_datetime(&t), b"20240102T030405Z".to_vec());
}

#[test]
fn list_request_uses_virtual_host_when_no_override() {
    let ep = Endpoint {
        host: b"s3.us-east-1.amazonaws.com".to_vec(),
        region: b"us-east-1".to_vec(),
        use_path_style: false,
    };
    let req = build_list_request(&ep, &creds(), &b"test-bucket".to_vec(), None, None, &ts());
    assert_eq!(req.uri_path, b"/".to_vec());
    let host = req
        .headers
        .iter()
        .find(|h| h.name == b"host".to_vec())
        .unwrap();
    assert_eq!(host.value, b"test-bucket.s3.us-east-1.amazonaws.com".to_vec());
    let prefix = b"logs/".to_vec();
    let req2 = build_list_request(&ep, &creds(), &b"test-bucket".to_vec(), Some(&prefix), None, &ts());
    assert_eq!(req2.query, b"list-type=2&prefix=logs%2F".to_vec());
}

#[test]
fn config_demands_the_four_mandatory_fields() {
    let empty = ConfigInput {
        access_key_id: None,
        secret_access_key: None,
        bucket: None,
        region: None,
        endpoint: None,
    };
    assert!(matches!(
        validate_config(empty),
        Err(S3Result::ConfigError(ConfigFault::MissingAccessKeyId))
    ));
    let partial = ConfigInput {
        access_key_id: Some(b"ak".to_vec()),
        secret_access_key: Some(b"sk".to_vec()),
        bucket: None,
        region: Some(b"us-east-1".to_vec()),
        endpoint: None,
    };
    assert!(matches!(
        validate_config(partial),
        Err(S3Result::ConfigError(ConfigFault::MissingBucket))
    ));
    let invalid = ConfigInput {
        access_key_id: Some(b"ak".to_vec()),
        secret_access_key: Some(b"sk".to_vec()),
        bucket: Some(b"has space".to_vec()),
        region: Some(b"us-east-1".to_vec()),
        endpoint: None,
    };
    assert!(matches!(
        validate_config(invalid),
        Err(S3Result::ConfigError(ConfigFault::InvalidField))
    ));
}

#[test]
fn config_defaults_host_and_addressing() {
    let input = ConfigInput {
        access_key_id: Some(b"ak".to_vec()),
        secret_access_key: Some(b"sk".to_vec()),
        bucket: Some(b"b".to_vec()),
        region: Some(b"eu-west-2".to_vec()),
        endpoint: None,
    };
    let cfg = validate_config(input).unwrap();
    assert_eq!(cfg.endpoint.host, b"s3.eu-west-2.amazonaws.com".to_vec());
    assert!(!cfg.endpoint.use_path_style);
    let with_override = ConfigInput {
        access_key_id: Some(b"ak".to_vec()),
        secret_access_key: Some(b"sk".to_vec()),
        bucket: Some(b"b".to_vec()),
        region: Some(b"eu-west-2".to_vec()),
        endpoint: Some(b"minio.local:9000".to_vec()),
    };
    let cfg2 = validate_config(with_override).unwrap();
    assert_eq!(cfg2.endpoint.host, b"minio.local:9000".to_vec());
    assert!(cfg2.endpoint.use_path_style);
}

#[test]
fn parse_u64_is_exact() {
    assert_eq!(s3_core::scan::parse_u64(&b"0".to_vec()), Some(0));
    assert_eq!(
        s3_core::scan::parse_u64(&b"18446744073709551615".to_vec()),
        Some(u64::MAX)
    );
    assert_eq!(s3_core::scan::parse_u64(&b"18446744073709551616".to_vec()), None);
    assert_eq!(s3_core::scan::parse_u64(&b"12a".to_vec()), None);
    assert_eq!(s3_core::scan::parse_u64(&Vec::new()), None);
}
