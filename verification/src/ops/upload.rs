//! Batch upload decisions: request defaults, per-file plans and `ETag`s.

use vstd::prelude::*;

use crate::config::TransferConfig;
use crate::error::{Error, Result};
use crate::text::concat2;
use crate::transfer::part::Part;
use crate::transfer::scheduler::{ceil_div, plan_parts, planned_parts, MAX_S3_PARTS};

verus! {

/// Default number of files uploaded in parallel.
pub const DEFAULT_UPLOAD_WORKERS: usize = 32;
/// Default number of parts uploaded concurrently per file.
pub const DEFAULT_UPLOAD_CONCURRENCY: usize = 8;

/// Outcome for a single uploaded file.
#[derive(Debug, Clone)]
pub struct FileUploadResult {
    /// `ETag` returned by S3.
    pub etag: String,
    /// S3 key the file was written to.
    pub key: String,
    /// Number of parts used (1 = single PUT).
    pub parts: u32,
    /// File size in bytes.
    pub size: u64,
    /// Local path that was uploaded.
    pub source: String,
}

/// A batch upload request: files and/or directories (walked recursively)
/// uploaded under `dest_prefix` in `dest_bucket`.
#[derive(Debug, Clone)]
#[non_exhaustive]
pub struct UploadRequest {
    /// Number of parts uploaded concurrently within a single multipart upload.
    pub concurrency_per_file: usize,
    /// Target S3 bucket.
    pub dest_bucket: String,
    /// Key prefix in the bucket (e.g. `data/2024/`).
    pub dest_prefix: String,
    /// Local file or directory paths to upload.
    pub sources: Vec<String>,
    /// Number of files uploaded in parallel.
    pub workers: usize,
}

/// Result of a batch upload.
#[derive(Debug, Clone)]
pub struct UploadResult {
    /// Per-file outcomes.
    pub files: Vec<FileUploadResult>,
}

impl UploadRequest {
    /// Create a new upload request with the defaults: 32 workers, 8
    /// concurrent parts per file.
    pub fn new(sources: Vec<String>, dest_bucket: &str, dest_prefix: &str) -> (r: Self)
        ensures
            r.sources == sources,
            r.dest_bucket@ == dest_bucket@,
            r.dest_prefix@ == dest_prefix@,
            r.workers == DEFAULT_UPLOAD_WORKERS,
            r.concurrency_per_file == DEFAULT_UPLOAD_CONCURRENCY,
    {
        UploadRequest {
            concurrency_per_file: DEFAULT_UPLOAD_CONCURRENCY,
            dest_bucket: dest_bucket.to_owned(),
            dest_prefix: dest_prefix.to_owned(),
            sources,
            workers: DEFAULT_UPLOAD_WORKERS,
        }
    }
}

/// How one file is uploaded.
#[derive(Debug, Clone)]
pub enum UploadPlan {
    /// A single PUT of the whole file.
    Single,
    /// A multipart upload of these parts.
    Multipart(Vec<Part>),
}

/// Whether `plan_upload` can plan a file of `size` bytes: it goes in one
/// PUT, or the configured part size is non-zero and cuts it into at most
/// 10,000 parts.
pub open spec fn upload_plannable(size: u64, transfer: TransferConfig) -> bool {
    size <= transfer.multipart_threshold || (transfer.part_size > 0 && ceil_div(
        size as nat,
        transfer.part_size as nat,
    ) <= MAX_S3_PARTS)
}

/// Plan the upload of a file of `size` bytes: files up to the multipart
/// threshold go in a single PUT, larger ones in parts of the configured size.
pub fn plan_upload(size: u64, transfer: &TransferConfig) -> (p: UploadPlan)
    requires
        upload_plannable(size, *transfer),
    ensures
        size <= transfer.multipart_threshold ==> p is Single,
        size > transfer.multipart_threshold ==> (p matches UploadPlan::Multipart(parts)
            && parts@ == planned_parts(size as nat, transfer.part_size as nat)),
{
    if size <= transfer.multipart_threshold {
        UploadPlan::Single
    } else {
        UploadPlan::Multipart(plan_parts(size, transfer))
    }
}

/// The `ETag` of a response, or the error for a missing or unreadable one.
/// `header` is the `etag` header: absent, its text, or the error text of
/// reading it as ASCII; `what` names the response in the message.
pub fn etag_from_header(header: Option<core::result::Result<String, String>>, what: &str) -> (r:
    Result<String>)
    ensures
        match header {
            None => r matches Err(Error::S3 { code, message }) && code@ == "MissingETag"@
                && message@ == what@ + " response missing ETag header"@,
            Some(Err(e)) => r matches Err(Error::S3 { code, message }) && code@ == "InvalidETag"@
                && message@ == "ETag header is not valid ASCII: "@ + e@,
            Some(Ok(t)) => r matches Ok(v) && v@ == t@,
        },
{
    match header {
        None => Err(Error::S3 {
            code: "MissingETag".to_owned(),
            message: concat2(what, " response missing ETag header"),
        }),
        Some(Err(e)) => Err(Error::S3 {
            code: "InvalidETag".to_owned(),
            message: concat2("ETag header is not valid ASCII: ", e.as_str()),
        }),
        Some(Ok(t)) => Ok(t),
    }
}

/// The number of parts of a completed multipart upload, as `u32`.
pub fn parts_count(n: usize) -> (r: Result<u32>)
    ensures
        n <= u32::MAX ==> r == Ok::<u32, Error>(n as u32),
        n > u32::MAX ==> r matches Err(Error::Conversion(_)),
{
    if n <= u32::MAX as usize {
        Ok(n as u32)
    } else {
        Err(Error::Conversion("out of range integral type conversion attempted".to_owned()))
    }
}

} // verus!
