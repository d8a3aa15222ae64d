use std::io;

use s3z::auth::{resolve, CredentialSource};
use s3z::error::{missing_env, Error};

#[test]
fn missing_env_formats_var_name() {
    let err = missing_env("MY_VAR");
    match err {
        Error::Auth(msg) => assert_eq!(msg, "MY_VAR not set"),
        other => panic!("expected Auth, got {other:?}"),
    }
}

#[test]
fn display_auth_error() {
    let err = Error::Auth("creds expired".into());
    assert_eq!(err.to_string(), "auth error: creds expired");
}

#[test]
fn display_s3_error() {
    let err = Error::S3 {
        code: "NoSuchKey".into(),
        message: "not found".into(),
    };
    assert_eq!(err.to_string(), "s3 error NoSuchKey: not found");
}

#[test]
fn display_conversion_error() {
    let err = Error::Conversion("bad utf8".into());
    assert_eq!(err.to_string(), "conversion error: bad utf8");
}

#[test]
fn display_internal_error() {
    let err = Error::Internal("task panicked".into());
    assert_eq!(err.to_string(), "internal error: task panicked");
}

#[test]
fn display_io_error() {
    let err = Error::Io(io::Error::new(io::ErrorKind::NotFound, "gone"));
    let display = err.to_string();
    assert!(display.contains("io error"), "got: {display}");
}

#[test]
fn from_io_error() {
    let io_err = io::Error::new(io::ErrorKind::PermissionDenied, "nope");
    let err: Error = io_err.into();
    assert!(matches!(err, Error::Io(_)));
}

#[test]
fn display_other_variants() {
    assert_eq!(Error::Http("reset".into()).to_string(), "http error: reset");
    assert_eq!(Error::HttpBuild("bad header".into()).to_string(), "http build error: bad header");
    assert_eq!(Error::Uri("no scheme".into()).to_string(), "invalid uri: no scheme");
    assert_eq!(Error::Walk("loop".into()).to_string(), "walk error: loop");
}

#[test]
fn static_credentials_resolved() {
    let source = CredentialSource::Static {
        access_key: "AKID".into(),
        secret_key: "SECRET".into(),
    };
    let creds = resolve(&source, None, None).unwrap();
    assert_eq!(creds.access_key, "AKID");
    assert_eq!(creds.secret_key, "SECRET");
}

#[test]
fn static_credentials_empty_strings_accepted() {
    let source = CredentialSource::Static {
        access_key: String::new(),
        secret_key: String::new(),
    };
    let creds = resolve(&source, None, None).unwrap();
    assert_eq!(creds.access_key, "");
    assert_eq!(creds.secret_key, "");
}

#[test]
fn missing_env_helper_formats_correctly() {
    let err = missing_env("AWS_ACCESS_KEY_ID");
    match err {
        Error::Auth(msg) => {
            assert_eq!(msg, "AWS_ACCESS_KEY_ID not set");
        },
        other => panic!("expected Auth error, got {other:?}"),
    }
}

#[test]
fn env_credentials_report_first_missing_variable() {
    match resolve(&CredentialSource::Env, None, Some("s".into())) {
        Err(Error::Auth(msg)) => assert_eq!(msg, "AWS_ACCESS_KEY_ID not set"),
        other => panic!("unexpected {other:?}"),
    }
    match resolve(&CredentialSource::Env, Some("a".into()), None) {
        Err(Error::Auth(msg)) => assert_eq!(msg, "AWS_SECRET_ACCESS_KEY not set"),
        other => panic!("unexpected {other:?}"),
    }
    let creds = resolve(&CredentialSource::Env, Some("a".into()), Some("s".into())).unwrap();
    assert_eq!(creds.access_key, "a");
    assert_eq!(creds.secret_key, "s");
}
