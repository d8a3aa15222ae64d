//! # s3z
//!
//! S3 ops, but fearlessly fast: the verified core of a lightweight,
//! high-throughput S3 client built on raw HTTP and `SigV4` signing.
//!
//! The library holds the client's logic: configuration, credential
//! resolution, request signing, object-key encoding, response handling,
//! retry decisions, listing pagination, part planning and parallelism
//! tuning. Sending requests and touching the file system is left to the
//! caller, which hands the library plain values and acts on its answers.

pub mod auth;
pub mod config;
pub mod error;
pub mod http;
pub mod ops;
pub mod options;
pub mod text;
pub mod transfer;

pub use config::Config;
pub use http::ObjectKey;
pub use ops::download::{
    tune_parallelism, DownloadRequest, DownloadResult, FileDownloadResult, ParallelismConfig,
};
pub use ops::head::{HeadObjectOutput, HeadObjectRequest};
pub use ops::list::{ListPage, ListPaginator, ListRequest, ObjectInfo};
pub use ops::upload::{FileUploadResult, UploadRequest, UploadResult};
