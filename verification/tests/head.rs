use s3z::auth::{resolve, CredentialSource};
use s3z::ops::head::{head_request, parse_head_response};
use s3z::{Config, HeadObjectRequest};

fn headers(pairs: &[(&str, Option<&str>)]) -> Vec<(String, Option<String>)> {
    pairs.iter().map(|(k, v)| (k.to_string(), v.map(|s| s.to_string()))).collect()
}

#[test]
fn head_request_builder() {
    let req = HeadObjectRequest::new("bucket", "key.txt");
    assert_eq!(req.bucket, "bucket");
    assert_eq!(req.key, "key.txt");
}

#[test]
fn parse_full_head_headers() {
    let h = headers(&[
        ("content-length", Some("12345")),
        ("content-type", Some("application/octet-stream")),
        ("etag", Some("\"abc123\"")),
        ("last-modified", Some("Mon, 01 Jan 2024 00:00:00 GMT")),
        ("x-amz-version-id", Some("v1")),
        ("x-amz-storage-class", Some("STANDARD")),
        ("x-amz-server-side-encryption", Some("AES256")),
    ]);
    let out = parse_head_response(&h);
    assert_eq!(out.content_length, 12345);
    assert_eq!(out.content_type.as_deref(), Some("application/octet-stream"));
    assert_eq!(out.etag.as_deref(), Some("\"abc123\""));
    assert_eq!(out.last_modified.as_deref(), Some("Mon, 01 Jan 2024 00:00:00 GMT"));
    assert_eq!(out.version_id.as_deref(), Some("v1"));
    assert_eq!(out.storage_class.as_deref(), Some("STANDARD"));
    assert_eq!(out.server_side_encryption.as_deref(), Some("AES256"));
    assert!(out.metadata.is_empty());
}

#[test]
fn parse_minimal_head_headers() {
    let out = parse_head_response(&headers(&[("content-length", Some("0"))]));
    assert_eq!(out.content_length, 0);
    assert!(out.content_type.is_none());
    assert!(out.etag.is_none());
    assert!(out.last_modified.is_none());
    assert!(out.version_id.is_none());
    assert!(out.storage_class.is_none());
    assert!(out.server_side_encryption.is_none());
    assert!(out.metadata.is_empty());
}

#[test]
fn parse_head_metadata_last_value_wins() {
    let out = parse_head_response(&headers(&[
        ("x-amz-meta-author", Some("alice")),
        ("x-amz-meta-project", Some("s3z")),
        ("x-amz-meta-author", Some("bob")),
        ("x-amz-meta-binary", None),
    ]));
    let mut meta = out.metadata.clone();
    meta.sort();
    assert_eq!(meta, vec![
        ("author".to_owned(), "bob".to_owned()),
        ("binary".to_owned(), String::new()),
        ("project".to_owned(), "s3z".to_owned()),
    ]);
}

#[test]
fn parse_head_bad_length_is_zero() {
    assert_eq!(parse_head_response(&headers(&[("content-length", Some("12x"))])).content_length, 0);
    assert_eq!(parse_head_response(&headers(&[("content-length", Some("+42"))])).content_length, 42);
    assert_eq!(parse_head_response(&headers(&[("content-length", Some("18446744073709551616"))])).content_length, 0);
    assert_eq!(parse_head_response(&headers(&[("content-length", None)])).content_length, 0);
}

#[test]
fn head_request_targets_encoded_key() {
    let cfg = Config::with_endpoint("us-east-1", CredentialSource::Env, "http://h:9000".into());
    let creds = resolve(&CredentialSource::Static { access_key: "AK".into(), secret_key: "SK".into() }, None, None).unwrap();
    let req = head_request(&cfg, &creds, &HeadObjectRequest::new("bucket", "a b.txt")).unwrap();
    assert_eq!(req.method.as_str(), "HEAD");
    assert_eq!(req.uri, "http://h:9000/bucket/a%20b.txt");
}
