//! S3 XML response handling.
//!
//! The XML bodies are deserialised into the plain types below by the
//! caller (with `quick-xml` and `serde`); the functions here decide what a
//! body, parsed or not, means to the client.

use vstd::prelude::*;

use crate::error::{Error, Result};

verus! {

/// A common prefix entry from `ListObjectsV2` (when using a delimiter).
#[derive(Debug, Clone)]
pub struct CommonPrefix {
    /// The prefix string.
    pub prefix: String,
}

/// Response body from `ListObjectsV2`.
#[derive(Debug, Clone)]
pub struct ListBucketResult {
    /// Object entries in this page.
    pub contents: Vec<ListObject>,
    /// Common prefixes when a delimiter is used.
    pub common_prefixes: Vec<CommonPrefix>,
    /// Token for fetching the next page, if truncated.
    pub next_continuation_token: Option<String>,
    /// Whether there are more pages.
    pub is_truncated: bool,
}

/// A single object entry in a `ListObjectsV2` response.
#[derive(Debug, Clone)]
pub struct ListObject {
    /// Object key.
    pub key: String,
    /// Object size in bytes.
    pub size: u64,
    /// `ETag` of the object.
    pub etag: String,
    /// Last modified timestamp (ISO 8601).
    pub last_modified: String,
}

/// Response body from `CompleteMultipartUpload`.
#[derive(Debug, Clone)]
pub struct CompleteMultipartUploadResult {
    /// `ETag` of the completed object.
    pub etag: String,
}

/// Response body from `InitiateMultipartUpload`.
#[derive(Debug, Clone)]
pub struct InitiateMultipartUploadResult {
    /// The upload ID assigned by S3.
    pub upload_id: String,
}

/// S3 XML error body.
#[derive(Debug, Clone)]
pub struct S3ErrorBody {
    /// Error code.
    pub code: String,
    /// Error message.
    pub message: String,
}

/// The `S3` error reported when a response body does not parse.
pub open spec fn is_parse_error(e: Error, what: Seq<char>) -> bool {
    e matches Error::S3 { code, message } && code@ == "ParseError"@ && message@ == "failed to parse "@
        + what
}

fn parse_failure(what: &str) -> (e: Error)
    ensures
        is_parse_error(e, what@),
{
    Error::S3 {
        code: "ParseError".to_owned(),
        message: crate::text::concat2("failed to parse ", what),
    }
}

/// The result of parsing a `ListObjectsV2` body: the parsed value, or a
/// `ParseError` when the body did not parse.
pub fn parse_list_objects(parsed: Option<ListBucketResult>) -> (r: Result<ListBucketResult>)
    ensures
        match parsed {
            Some(p) => r == Ok::<ListBucketResult, Error>(p),
            None => r matches Err(e) && is_parse_error(e, "ListBucketResult"@),
        },
{
    match parsed {
        Some(p) => Ok(p),
        None => Err(parse_failure("ListBucketResult")),
    }
}

/// The result of parsing a `CompleteMultipartUpload` body.
pub fn parse_complete_multipart(parsed: Option<CompleteMultipartUploadResult>) -> (r: Result<
    CompleteMultipartUploadResult,
>)
    ensures
        match parsed {
            Some(p) => r == Ok::<CompleteMultipartUploadResult, Error>(p),
            None => r matches Err(e) && is_parse_error(e, "CompleteMultipartUploadResult"@),
        },
{
    match parsed {
        Some(p) => Ok(p),
        None => Err(parse_failure("CompleteMultipartUploadResult")),
    }
}

/// The result of parsing an `InitiateMultipartUpload` body.
pub fn parse_initiate_multipart(parsed: Option<InitiateMultipartUploadResult>) -> (r: Result<
    InitiateMultipartUploadResult,
>)
    ensures
        match parsed {
            Some(p) => r == Ok::<InitiateMultipartUploadResult, Error>(p),
            None => r matches Err(e) && is_parse_error(e, "InitiateMultipartUploadResult"@),
        },
{
    match parsed {
        Some(p) => Ok(p),
        None => Err(parse_failure("InitiateMultipartUploadResult")),
    }
}

/// The error an S3 error body stands for: its code and message when the body
/// parsed as an `<Error>` document, else code `Unknown` with the raw body as
/// the message.
pub fn parse_error(body: &str, parsed: Option<S3ErrorBody>) -> (e: Error)
    ensures
        match parsed {
            Some(p) => e matches Error::S3 { code, message } && code@ == p.code@ && message@
                == p.message@,
            None => e matches Error::S3 { code, message } && code@ == "Unknown"@ && message@
                == body@,
        },
{
    match parsed {
        Some(p) => Error::S3 { code: p.code, message: p.message },
        None => Error::S3 { code: "Unknown".to_owned(), message: body.to_owned() },
    }
}

} // verus!
