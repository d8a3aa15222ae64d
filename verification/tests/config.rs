use std::time::Duration;

use s3z::auth::CredentialSource;
use s3z::config::{RetryPolicy, TransferConfig};
use s3z::options::{build_config, nonzero};
use s3z::Config;

#[test]
fn default_endpoint_uses_region() {
    let cfg = Config::new("eu-west-1", CredentialSource::Env);
    assert_eq!(cfg.endpoint_url(), "https://s3.eu-west-1.amazonaws.com");
    assert_eq!(cfg.region, "eu-west-1");
    assert!(cfg.endpoint.is_none());
}

#[test]
fn custom_endpoint_used_verbatim() {
    let cfg = Config::with_endpoint("us-east-1", CredentialSource::Env, "http://localhost:9000".into());
    assert_eq!(cfg.endpoint_url(), "http://localhost:9000");
    assert_eq!(cfg.endpoint.as_deref(), Some("http://localhost:9000"));
}

#[test]
fn retry_policy_defaults() {
    let policy = RetryPolicy::default();
    assert_eq!(policy.max_retries, 5);
    assert_eq!(policy.base_delay, Duration::from_millis(100));
    assert_eq!(policy.max_delay, Duration::from_secs(30));
}

#[test]
fn transfer_config_defaults() {
    let tc = TransferConfig::default();
    assert_eq!(tc.multipart_threshold, 50 * 1024 * 1024);
    assert_eq!(tc.part_size, 50 * 1024 * 1024);
}

#[test]
fn config_new_uses_default_retry_and_transfer() {
    let cfg = Config::new("us-east-1", CredentialSource::Env);
    assert_eq!(cfg.retry.max_retries, RetryPolicy::default().max_retries);
    assert_eq!(cfg.transfer.part_size, TransferConfig::default().part_size);
}

#[test]
fn build_config_static_keys_and_endpoint() {
    let cfg = build_config(
        "us-west-2",
        Some("http://minio:9000".to_owned()),
        Some("AK".to_owned()),
        Some("SK".to_owned()),
    );
    assert_eq!(cfg.endpoint_url(), "http://minio:9000");
    assert_eq!(cfg.region, "us-west-2");
    match cfg.credentials {
        CredentialSource::Static { access_key, secret_key } => {
            assert_eq!(access_key, "AK");
            assert_eq!(secret_key, "SK");
        },
        other => panic!("expected static credentials, got {other:?}"),
    }
}

#[test]
fn build_config_one_key_falls_back_to_env() {
    let cfg = build_config("ap-south-1", None, Some("AK".to_owned()), None);
    assert!(matches!(cfg.credentials, CredentialSource::Env));
    assert_eq!(cfg.endpoint_url(), "https://s3.ap-south-1.amazonaws.com");
    assert!(cfg.endpoint.is_none());
}

#[test]
fn nonzero_rejects_zero() {
    assert_eq!(nonzero("workers", 0), Err("workers must be > 0".to_owned()));
    assert_eq!(nonzero("workers", 7), Ok(7));
}
