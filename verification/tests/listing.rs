use s3z::auth::{resolve, CredentialSource};
use s3z::http::response::{CommonPrefix, ListBucketResult, ListObject};
use s3z::{Config, ListPaginator, ListRequest, ObjectInfo};

#[test]
fn list_request_builder() {
    let req = ListRequest::new("bucket", "prefix/").with_delimiter("/");
    assert_eq!(req.bucket, "bucket");
    assert_eq!(req.prefix, "prefix/");
    assert_eq!(req.delimiter.as_deref(), Some("/"));
}

#[test]
fn object_info_from_list_object() {
    let lo = ListObject {
        key: "k".into(),
        size: 42,
        etag: "\"e\"".into(),
        last_modified: "2024-01-01".into(),
    };
    let info = ObjectInfo::from(lo);
    assert_eq!(info.key, "k");
    assert_eq!(info.size, 42);
    assert_eq!(info.etag, "\"e\"");
}

fn paginator(req: ListRequest) -> ListPaginator {
    let cfg = Config::with_endpoint("us-east-1", CredentialSource::Env, "http://h:9000".into());
    let creds = resolve(&CredentialSource::Static { access_key: "AK".into(), secret_key: "SK".into() }, None, None).unwrap();
    ListPaginator::new(cfg, creds, req)
}

fn object(key: &str) -> ListObject {
    ListObject { key: key.into(), size: 1, etag: "e".into(), last_modified: "t".into() }
}

#[test]
fn first_page_url_encodes_prefix_and_delimiter() {
    let p = paginator(ListRequest::new("b", "my docs/").with_delimiter("/"));
    assert_eq!(p.next_url().unwrap(),
        "http://h:9000/b?list-type=2&prefix=my%20docs%2F&delimiter=%2F");
}

#[test]
fn pagination_follows_token_then_stops() {
    let mut p = paginator(ListRequest::new("b", ""));
    assert_eq!(p.next_url().unwrap(), "http://h:9000/b?list-type=2&prefix=");
    let page = p.accept_page(ListBucketResult {
        contents: vec![object("page1.txt")],
        common_prefixes: vec![],
        next_continuation_token: Some("tok/1=".into()),
        is_truncated: true,
    }).unwrap();
    assert_eq!(page.objects[0].key, "page1.txt");
    assert!(!p.is_done());
    assert_eq!(p.next_url().unwrap(),
        "http://h:9000/b?list-type=2&prefix=&continuation-token=tok%2F1%3D");
    let page = p.accept_page(ListBucketResult {
        contents: vec![object("page2.txt")],
        common_prefixes: vec![CommonPrefix { prefix: "photos/".into() }],
        next_continuation_token: None,
        is_truncated: false,
    }).unwrap();
    assert_eq!(page.objects[0].key, "page2.txt");
    assert_eq!(page.common_prefixes, vec!["photos/".to_owned()]);
    assert!(p.is_done());
    assert!(p.next_url().is_none());
    assert!(p.next_request().is_none());
}

#[test]
fn empty_final_page_is_none() {
    let mut p = paginator(ListRequest::new("b", "x"));
    let page = p.accept_page(ListBucketResult {
        contents: vec![],
        common_prefixes: vec![],
        next_continuation_token: None,
        is_truncated: false,
    });
    assert!(page.is_none());
    assert!(p.is_done());
}

#[test]
fn next_request_is_signed_get() {
    let p = paginator(ListRequest::new("b", "p"));
    let req = p.next_request().unwrap().unwrap();
    assert_eq!(req.method.as_str(), "GET");
    assert_eq!(req.uri, "http://h:9000/b?list-type=2&prefix=p");
    assert!(req.headers.iter().any(|(k, _)| k == "authorization"));
    assert!(req.headers.iter().any(|(k, _)| k == "x-amz-date"));
}
