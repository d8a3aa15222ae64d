//! Transfer internals: part management and scheduling.

pub mod part;
pub mod scheduler;
pub mod multipart;
