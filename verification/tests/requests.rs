use s3z::auth::{resolve, CredentialSource, Credentials};
use s3z::error::Error;
use s3z::http::request::{build_signed_at, build_signed_unsigned_payload_at, Method};
use s3z::http::response::{
    parse_complete_multipart, parse_error, parse_initiate_multipart, parse_list_objects,
    CompleteMultipartUploadResult, InitiateMultipartUploadResult, S3ErrorBody,
};
use s3z::text::{decimal_string, parse_u64};

fn creds() -> Credentials {
    resolve(&CredentialSource::Static { access_key: "AKID".into(), secret_key: "SECRET".into() }, None, None).unwrap()
}

#[test]
fn signed_request_has_length_and_signature() {
    let req = build_signed_at(Method::Put, "http://localhost:9000/b/k", b"hello".to_vec(), &creds(), "us-east-1", 1_700_000_000).unwrap();
    assert_eq!(req.uri, "http://localhost:9000/b/k");
    assert_eq!(req.headers[0], ("content-length".to_owned(), "5".to_owned()));
    assert_eq!(req.body, b"hello".to_vec());
    let date = req.headers.iter().find(|(k, _)| k == "x-amz-date").unwrap();
    assert_eq!(date.1, "20231114T221320Z");
    let auth = req.headers.iter().find(|(k, _)| k == "authorization").unwrap();
    assert!(auth.1.starts_with("AWS4-HMAC-SHA256 Credential=AKID/20231114/us-east-1/s3/aws4_request"));
    let sha = req.headers.iter().find(|(k, _)| k == "x-amz-content-sha256").unwrap();
    assert_eq!(sha.1, "2cf24dba5fb0a30e26e83b2ac5b9e29e1b161e5c1fa7425e73043362938b9824");
}

#[test]
fn signing_is_deterministic_in_time() {
    let a = build_signed_at(Method::Get, "http://h/b", Vec::new(), &creds(), "eu-west-1", 1).unwrap();
    let b = build_signed_at(Method::Get, "http://h/b", Vec::new(), &creds(), "eu-west-1", 1).unwrap();
    assert_eq!(a.headers, b.headers);
}

#[test]
fn unsigned_payload_request() {
    let req = build_signed_unsigned_payload_at(Method::Put, "http://h/b/k?partNumber=1&uploadId=u", 1024, &creds(), "us-east-1", 1_700_000_000).unwrap();
    assert_eq!(req.headers[0], ("content-length".to_owned(), "1024".to_owned()));
    assert!(req.body.is_empty());
    let sha = req.headers.iter().find(|(k, _)| k == "x-amz-content-sha256").unwrap();
    assert_eq!(sha.1, "UNSIGNED-PAYLOAD");
}

#[test]
fn bad_uri_is_uri_error() {
    let req = build_signed_at(Method::Get, "http://h:9000", Vec::new(), &creds(), "us-east-1", 1).unwrap();
    assert_eq!(req.uri, "http://h:9000/");
    match build_signed_at(Method::Get, "http://bad host/", Vec::new(), &creds(), "us-east-1", 1) {
        Err(Error::Uri(_)) => {},
        other => panic!("unexpected {other:?}"),
    }
}

#[test]
fn uri_without_host_is_uri_error() {
    match build_signed_at(Method::Get, "/bucket/key", Vec::new(), &creds(), "us-east-1", 1) {
        Err(Error::Uri(m)) => assert_eq!(m, "uri has no authority"),
        other => panic!("unexpected {other:?}"),
    }
}

#[test]
fn signature_headers_in_order() {
    let req = build_signed_unsigned_payload_at(Method::Put, "http://h/b/k", 3, &creds(), "us-east-1", 253_402_300_799).unwrap();
    let names: Vec<&str> = req.headers.iter().map(|(k, _)| k.as_str()).collect();
    assert_eq!(names, ["content-length", "x-amz-date", "authorization", "x-amz-content-sha256"]);
    assert_eq!(req.headers[1].1, "99991231T235959Z");
    assert_eq!(req.headers[3].1, "UNSIGNED-PAYLOAD");
}

#[test]
fn parse_error_falls_back_to_body() {
    match parse_error("not xml at all", None) {
        Error::S3 { code, message } => {
            assert_eq!(code, "Unknown");
            assert_eq!(message, "not xml at all");
        },
        other => panic!("unexpected {other:?}"),
    }
    match parse_error("<Error/>", Some(S3ErrorBody { code: "NoSuchKey".into(), message: "gone".into() })) {
        Error::S3 { code, message } => {
            assert_eq!(code, "NoSuchKey");
            assert_eq!(message, "gone");
        },
        other => panic!("unexpected {other:?}"),
    }
}

#[test]
fn unparsed_bodies_are_parse_errors() {
    match parse_list_objects(None) {
        Err(Error::S3 { code, message }) => {
            assert_eq!(code, "ParseError");
            assert_eq!(message, "failed to parse ListBucketResult");
        },
        other => panic!("unexpected {other:?}"),
    }
    match parse_initiate_multipart(None) {
        Err(Error::S3 { message, .. }) => assert_eq!(message, "failed to parse InitiateMultipartUploadResult"),
        other => panic!("unexpected {other:?}"),
    }
    match parse_complete_multipart(None) {
        Err(Error::S3 { message, .. }) => assert_eq!(message, "failed to parse CompleteMultipartUploadResult"),
        other => panic!("unexpected {other:?}"),
    }
    let ok = parse_initiate_multipart(Some(InitiateMultipartUploadResult { upload_id: "abc123".into() })).unwrap();
    assert_eq!(ok.upload_id, "abc123");
    let ok = parse_complete_multipart(Some(CompleteMultipartUploadResult { etag: "\"e\"".into() })).unwrap();
    assert_eq!(ok.etag, "\"e\"");
}

#[test]
fn decimal_and_parse_round_trip() {
    assert_eq!(decimal_string(0), "0");
    assert_eq!(decimal_string(18446744073709551615), "18446744073709551615");
    assert_eq!(parse_u64("18446744073709551615"), Some(u64::MAX));
    assert_eq!(parse_u64("18446744073709551616"), None);
    assert_eq!(parse_u64(""), None);
    assert_eq!(parse_u64("+"), None);
    assert_eq!(parse_u64("-1"), None);
    assert_eq!(parse_u64("007"), Some(7));
    for n in [0u64, 9, 10, 12345, 1 << 40] {
        assert_eq!(parse_u64(&decimal_string(n)), Some(n));
    }
}
