use s3z::config::TransferConfig;
use s3z::ops::download::{
    channel_capacity, part_request, part_request_at, plan_download, with_range, range_header, DownloadPlan, DEFAULT_CONCURRENCY,
    DEFAULT_WORKERS, TOTAL_REQUEST_BUDGET,
};
use s3z::transfer::part::Part;
use s3z::auth::{resolve, CredentialSource};
use s3z::{tune_parallelism, Config, DownloadRequest, ObjectInfo};

const MB: u64 = 1024 * 1024;
const THRESHOLD: u64 = 50 * MB;

fn make_objects(sizes: &[u64]) -> Vec<ObjectInfo> {
    sizes
        .iter()
        .enumerate()
        .map(|(i, &size)| ObjectInfo::new(format!("file{i}.bin"), size, String::new(), String::new()))
        .collect()
}

#[test]
fn tune_empty_returns_defaults() {
    let cfg = tune_parallelism(&[], THRESHOLD);
    assert_eq!(cfg.workers, DEFAULT_WORKERS);
    assert_eq!(cfg.concurrency_per_file, DEFAULT_CONCURRENCY);
}

#[test]
fn tune_small_files_maximizes_workers() {
    let objects = make_objects(&[MB; 100]);
    let cfg = tune_parallelism(&objects, THRESHOLD);
    assert_eq!(cfg.workers, 100);
    assert_eq!(cfg.concurrency_per_file, 1);
}

#[test]
fn tune_small_files_caps_at_budget() {
    let objects = make_objects(&[MB; 1000]);
    let cfg = tune_parallelism(&objects, THRESHOLD);
    assert_eq!(cfg.workers, TOTAL_REQUEST_BUDGET);
    assert_eq!(cfg.concurrency_per_file, 1);
}

#[test]
fn tune_large_files_uses_concurrency() {
    let objects = make_objects(&[500 * MB; 10]);
    let cfg = tune_parallelism(&objects, THRESHOLD);
    assert_eq!(cfg.concurrency_per_file, DEFAULT_CONCURRENCY);
    assert_eq!(cfg.workers, 10);
}

#[test]
fn tune_large_files_caps_workers() {
    let objects = make_objects(&[500 * MB; 100]);
    let cfg = tune_parallelism(&objects, THRESHOLD);
    assert_eq!(cfg.concurrency_per_file, DEFAULT_CONCURRENCY);
    assert_eq!(cfg.workers, TOTAL_REQUEST_BUDGET / DEFAULT_CONCURRENCY);
}

#[test]
fn tune_single_small_file() {
    let objects = make_objects(&[10 * MB]);
    let cfg = tune_parallelism(&objects, THRESHOLD);
    assert_eq!(cfg.workers, 1);
    assert_eq!(cfg.concurrency_per_file, 1);
}

#[test]
fn tune_single_large_file() {
    let objects = make_objects(&[500 * MB]);
    let cfg = tune_parallelism(&objects, THRESHOLD);
    assert_eq!(cfg.workers, 1);
    assert_eq!(cfg.concurrency_per_file, DEFAULT_CONCURRENCY);
}

#[test]
fn tune_mixed_files_uses_median() {
    // 5 small, 4 large -> median is small -> small-files mode
    let mut sizes = vec![MB; 5];
    sizes.extend([500 * MB; 4]);
    let objects = make_objects(&sizes);
    let cfg = tune_parallelism(&objects, THRESHOLD);
    assert_eq!(cfg.concurrency_per_file, 1);
}

#[test]
fn auto_tune_applies_config() {
    let objects = make_objects(&[MB; 50]);
    let req = DownloadRequest::new("bucket", "prefix/", "/tmp/dest").auto_tune(&objects, THRESHOLD);
    assert_eq!(req.workers, 50);
    assert_eq!(req.concurrency_per_file, 1);
}

#[test]
fn tune_median_of_even_count_is_upper_middle() {
    // 2 small, 2 large: the element at index 2 in size order is large.
    let objects = make_objects(&[MB, 500 * MB, MB, 500 * MB]);
    let cfg = tune_parallelism(&objects, THRESHOLD);
    assert_eq!(cfg.concurrency_per_file, DEFAULT_CONCURRENCY);
    assert_eq!(cfg.workers, 4);
}

#[test]
fn explicit_parallelism_is_kept() {
    let objects = make_objects(&[MB; 50]);
    let mut req = DownloadRequest::new("bucket", "p/", "/tmp/d");
    req.workers = 3;
    let req = req.tuned_for(&objects, THRESHOLD);
    assert_eq!(req.workers, 3);
    assert_eq!(req.concurrency_per_file, 1);
    let mut req = DownloadRequest::new("bucket", "p/", "/tmp/d");
    req.concurrency_per_file = 4;
    let req = req.tuned_for(&objects, THRESHOLD);
    assert_eq!(req.workers, 50);
    assert_eq!(req.concurrency_per_file, 4);
    let mut req = DownloadRequest::new("bucket", "p/", "/tmp/d");
    req.workers = 2;
    req.concurrency_per_file = 5;
    let req = req.tuned_for(&objects, THRESHOLD);
    assert_eq!((req.workers, req.concurrency_per_file), (2, 5));
    let req = DownloadRequest::new("bucket", "p/", "/tmp/d").tuned_for(&objects, THRESHOLD);
    assert_eq!(req.workers, 50);
    assert_eq!(req.concurrency_per_file, 1);
}

#[test]
fn channel_capacity_doubles_workers() {
    assert_eq!(channel_capacity(0), 1);
    assert_eq!(channel_capacity(16), 32);
    assert_eq!(channel_capacity(usize::MAX), usize::MAX);
}

#[test]
fn plan_small_object_single_get() {
    let cfg = Config::with_endpoint("us-east-1", CredentialSource::Env, "http://h:9000".into());
    let obj = ObjectInfo::new("data/a b.txt".into(), 10, String::new(), String::new());
    let d = plan_download(&cfg, "bkt", "data/", &obj, 8);
    assert_eq!(d.relative_key, "a b.txt");
    assert_eq!(d.url, "http://h:9000/bkt/data/a%20b.txt");
    assert!(matches!(d.plan, DownloadPlan::Single));
}

#[test]
fn plan_large_object_in_parts() {
    let mut cfg = Config::with_endpoint("us-east-1", CredentialSource::Env, "http://h".into());
    cfg.transfer = TransferConfig::new(50 * MB, 50 * MB);
    let obj = ObjectInfo::new("other/big.bin".into(), 256 * MB, String::new(), String::new());
    let d = plan_download(&cfg, "bkt", "data/", &obj, 4);
    assert_eq!(d.relative_key, "other/big.bin");
    match d.plan {
        DownloadPlan::Multipart(parts) => {
            assert_eq!(parts.len(), 8);
            assert_eq!(parts[7].offset, 7 * 32 * MB);
            assert_eq!(parts[7].size, 32 * MB);
        },
        DownloadPlan::Single => panic!("expected a multipart plan"),
    }
}

#[test]
fn range_header_covers_part() {
    assert_eq!(range_header(0, 1), "bytes=0-0");
    assert_eq!(range_header(100, 50), "bytes=100-149");
}

#[test]
fn part_request_adds_range_after_signature() {
    let cfg = Config::with_endpoint("us-east-1", CredentialSource::Env, "http://h".into());
    let creds = resolve(&CredentialSource::Static { access_key: "AK".into(), secret_key: "SK".into() }, None, None).unwrap();
    let part = Part { number: 2, offset: 10, size: 5 };
    let req = part_request(&cfg, &creds, "http://h/b/k", &part).unwrap();
    let last = req.headers.last().unwrap();
    assert_eq!(last.0, "range");
    assert_eq!(last.1, "bytes=10-14");
    assert_eq!(req.headers[0].0, "content-length");
    assert_eq!(req.headers[0].1, "0");
    assert!(req.headers.iter().any(|(k, _)| k == "authorization"));
}

#[test]
fn part_request_at_is_signed_get_with_range() {
    let cfg = Config::with_endpoint("us-east-1", CredentialSource::Env, "http://h".into());
    let creds = resolve(&CredentialSource::Static { access_key: "AK".into(), secret_key: "SK".into() }, None, None).unwrap();
    let part = Part { number: 1, offset: 0, size: 1 };
    let req = part_request_at(&cfg, &creds, "http://h/b/k", &part, 1_700_000_000).unwrap();
    let names: Vec<&str> = req.headers.iter().map(|(k, _)| k.as_str()).collect();
    assert_eq!(names, ["content-length", "x-amz-date", "authorization", "x-amz-content-sha256", "range"]);
    assert_eq!(req.headers[1].1, "20231114T221320Z");
    assert_eq!(req.headers[4].1, "bytes=0-0");
    assert_eq!(req.uri, "http://h/b/k");
    assert!(req.body.is_empty());
    match part_request_at(&cfg, &creds, "/b/k", &part, 1) {
        Err(s3z::error::Error::Uri(m)) => assert_eq!(m, "uri has no authority"),
        other => panic!("unexpected {other:?}"),
    }
}

#[test]
fn with_range_passes_errors_through() {
    let part = Part { number: 3, offset: 100, size: 50 };
    match with_range(Err(s3z::error::Error::Internal("x".into())), &part) {
        Err(s3z::error::Error::Internal(m)) => assert_eq!(m, "x"),
        other => panic!("unexpected {other:?}"),
    }
}
