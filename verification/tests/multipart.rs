use s3z::config::TransferConfig;
use s3z::error::Error;
use s3z::ops::upload::{etag_from_header, parts_count, plan_upload, UploadPlan, UploadRequest};
use s3z::transfer::multipart::{complete_body, initiate_url, part_url, sort_by_number, upload_id_url};
use s3z::transfer::part::PartResult;
use s3z::ObjectKey;

#[test]
fn complete_body_sorts_parts() {
    let mut results = vec![
        PartResult { etag: "\"c\"".into(), number: 3 },
        PartResult { etag: "\"a\"".into(), number: 1 },
        PartResult { etag: "\"b\"".into(), number: 2 },
    ];
    let body = complete_body(&mut results);
    assert_eq!(body, "<CompleteMultipartUpload>\
        <Part><PartNumber>1</PartNumber><ETag>\"a\"</ETag></Part>\
        <Part><PartNumber>2</PartNumber><ETag>\"b\"</ETag></Part>\
        <Part><PartNumber>3</PartNumber><ETag>\"c\"</ETag></Part>\
        </CompleteMultipartUpload>");
    let numbers: Vec<u32> = results.iter().map(|r| r.number).collect();
    assert_eq!(numbers, vec![1, 2, 3]);
}

#[test]
fn sort_keeps_order_of_equal_numbers() {
    let mut results = vec![
        PartResult { etag: "x".into(), number: 2 },
        PartResult { etag: "p".into(), number: 1 },
        PartResult { etag: "y".into(), number: 2 },
        PartResult { etag: "q".into(), number: 1 },
    ];
    sort_by_number(&mut results);
    let got: Vec<(u32, &str)> = results.iter().map(|r| (r.number, r.etag.as_str())).collect();
    assert_eq!(got, vec![(1, "p"), (1, "q"), (2, "x"), (2, "y")]);
}

#[test]
fn multipart_urls() {
    let key = ObjectKey::new("dir/my file.bin");
    assert_eq!(initiate_url("http://h", "b", &key), "http://h/b/dir/my%20file.bin?uploads");
    assert_eq!(upload_id_url("http://h", "b", &key, "U1"), "http://h/b/dir/my%20file.bin?uploadId=U1");
    assert_eq!(part_url("http://h", "b", &key, 12, "U1"), "http://h/b/dir/my%20file.bin?partNumber=12&uploadId=U1");
}

#[test]
fn upload_request_defaults() {
    let req = UploadRequest::new(vec!["./data".into()], "my-bucket", "uploads/");
    assert_eq!(req.workers, 32);
    assert_eq!(req.concurrency_per_file, 8);
    assert_eq!(req.dest_bucket, "my-bucket");
    assert_eq!(req.dest_prefix, "uploads/");
}

#[test]
fn plan_upload_by_threshold() {
    let t = TransferConfig::new(100, 40);
    assert!(matches!(plan_upload(100, &t), UploadPlan::Single));
    match plan_upload(101, &t) {
        UploadPlan::Multipart(parts) => {
            assert_eq!(parts.len(), 3);
            assert_eq!(parts[2].size, 21);
        },
        UploadPlan::Single => panic!("expected parts"),
    }
}

#[test]
fn etag_errors() {
    match etag_from_header(None, "single PUT") {
        Err(Error::S3 { code, message }) => {
            assert_eq!(code, "MissingETag");
            assert_eq!(message, "single PUT response missing ETag header");
        },
        other => panic!("unexpected {other:?}"),
    }
    match etag_from_header(Some(Err("failed to convert header to a str".into())), "upload part") {
        Err(Error::S3 { code, message }) => {
            assert_eq!(code, "InvalidETag");
            assert_eq!(message, "ETag header is not valid ASCII: failed to convert header to a str");
        },
        other => panic!("unexpected {other:?}"),
    }
    assert_eq!(etag_from_header(Some(Ok("\"x\"".into())), "single PUT").unwrap(), "\"x\"");
    assert_eq!(parts_count(10_000).unwrap(), 10_000);
}
