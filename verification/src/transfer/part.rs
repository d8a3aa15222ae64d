//! Part-level types for multipart transfers.

use vstd::prelude::*;

verus! {

/// A single part of a multipart transfer.
#[derive(Debug, Clone, Copy, PartialEq, Eq, Structural)]
pub struct Part {
    /// 1-indexed part number (S3 requirement).
    pub number: u32,
    /// Byte offset of the part within the file.
    pub offset: u64,
    /// Number of bytes in this part.
    pub size: u64,
}

/// Result of a successfully uploaded part.
#[derive(Debug)]
pub struct PartResult {
    /// `ETag` returned by S3 for this part.
    pub etag: String,
    /// 1-indexed part number.
    pub number: u32,
}

} // verus!
