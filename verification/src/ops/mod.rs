//! S3 operations: the decisions of each operation, apart from the I/O.

pub mod list;
pub mod head;
pub mod download;
pub mod upload;
