//! Configuration types for the S3 client.

use core::time::Duration;

use vstd::prelude::*;

use crate::auth::CredentialSource;
use crate::text::concat3;

verus! {

/// Total length, in nanoseconds, of a `Duration`.
pub uninterp spec fn duration_nanos(d: Duration) -> u128;

/// `Duration::as_nanos` returns the total number of nanoseconds held.
pub assume_specification[ core::time::Duration::as_nanos ](d: &Duration) -> (r: u128)
    ensures
        r == duration_nanos(*d),
;

/// `Duration::from_millis` holds `millis` milliseconds.
pub assume_specification[ core::time::Duration::from_millis ](millis: u64) -> (r: Duration)
    ensures
        duration_nanos(r) == millis * 1_000_000,
;

/// `Duration::from_secs` holds `secs` seconds.
pub assume_specification[ core::time::Duration::from_secs ](secs: u64) -> (r: Duration)
    ensures
        duration_nanos(r) == secs * 1_000_000_000,
;

/// Default initial backoff delay, in milliseconds.
pub const DEFAULT_BASE_DELAY_MILLIS: u64 = 100;
/// Default maximum backoff delay, in seconds.
pub const DEFAULT_MAX_DELAY_SECS: u64 = 30;
/// Default number of retries per request.
pub const DEFAULT_MAX_RETRIES: u32 = 5;
/// Default multipart threshold and part size (50 MiB).
pub const DEFAULT_PART_BYTES: u64 = 52_428_800;

/// Top-level client configuration.
#[derive(Debug, Clone)]
#[non_exhaustive]
pub struct Config {
    /// How to obtain AWS credentials.
    pub credentials: CredentialSource,
    /// Custom endpoint for S3-compatible backends (`MinIO`, R2, GCS).
    /// When `None`, uses the default AWS endpoint.
    pub endpoint: Option<String>,
    /// AWS region (e.g. `us-east-1`).
    pub region: String,
    /// Resolved endpoint URL (cached at construction time).
    pub resolved_endpoint: String,
    /// Retry behaviour.
    pub retry: RetryPolicy,
    /// Transfer tuning knobs.
    pub transfer: TransferConfig,
}

/// Retry behaviour with exponential backoff.
#[derive(Debug, Clone, Copy)]
#[non_exhaustive]
pub struct RetryPolicy {
    /// Initial backoff delay.
    pub base_delay: Duration,
    /// Maximum backoff delay.
    pub max_delay: Duration,
    /// Maximum number of retries per request.
    pub max_retries: u32,
}

/// Controls multipart thresholds and concurrency.
#[derive(Debug, Clone, Copy)]
#[non_exhaustive]
pub struct TransferConfig {
    /// Files larger than this (bytes) use multipart upload.
    pub multipart_threshold: u64,
    /// Default part size hint (bytes), used by `plan_parts`.
    pub part_size: u64,
}

/// The endpoint AWS serves a region from.
pub open spec fn aws_endpoint(region: Seq<char>) -> Seq<char> {
    "https://s3."@ + region + ".amazonaws.com"@
}

impl RetryPolicy {
    /// A policy from its three fields.
    pub fn new(base_delay: Duration, max_delay: Duration, max_retries: u32) -> (p: Self)
        ensures
            p.base_delay == base_delay,
            p.max_delay == max_delay,
            p.max_retries == max_retries,
    {
        RetryPolicy { base_delay, max_delay, max_retries }
    }

}

impl Default for RetryPolicy {
    /// The default policy: 100 ms initial delay, 30 s cap, 5 retries.
    fn default() -> (p: Self)
        ensures
            duration_nanos(p.base_delay) == 100_000_000,
            duration_nanos(p.max_delay) == 30_000_000_000,
            p.max_retries == 5,
    {
        RetryPolicy {
            base_delay: Duration::from_millis(DEFAULT_BASE_DELAY_MILLIS),
            max_delay: Duration::from_secs(DEFAULT_MAX_DELAY_SECS),
            max_retries: DEFAULT_MAX_RETRIES,
        }
    }
}

impl TransferConfig {
    /// Connection pool size: at least the peak number of in-flight requests.
    pub const MAX_IDLE_CONNECTIONS: usize = 256;

    /// A transfer configuration from its two fields.
    pub fn new(multipart_threshold: u64, part_size: u64) -> (t: Self)
        ensures
            t.multipart_threshold == multipart_threshold,
            t.part_size == part_size,
    {
        TransferConfig { multipart_threshold, part_size }
    }

}

impl Default for TransferConfig {
    /// The default transfer configuration: 50 MiB threshold and part size.
    fn default() -> (t: Self)
        ensures
            t.multipart_threshold == 50 * 1024 * 1024,
            t.part_size == 50 * 1024 * 1024,
    {
        TransferConfig { multipart_threshold: DEFAULT_PART_BYTES, part_size: DEFAULT_PART_BYTES }
    }
}

impl Config {
    /// The resolved endpoint is the custom endpoint when there is one, else
    /// the AWS endpoint of the region.
    pub open spec fn wf(&self) -> bool {
        self.resolved_endpoint@ == match self.endpoint {
            Some(e) => e@,
            None => aws_endpoint(self.region@),
        }
    }

    /// The endpoint requests are sent to.
    pub open spec fn spec_endpoint_url(&self) -> Seq<char> {
        self.resolved_endpoint@
    }

    /// Resolved S3 endpoint URL.
    pub fn endpoint_url(&self) -> (url: &str)
        ensures
            url@ == self.spec_endpoint_url(),
    {
        self.resolved_endpoint.as_str()
    }

    /// Create a new config with the given region and credentials.
    ///
    /// Uses default transfer and retry settings; the endpoint is the AWS
    /// one for the region.
    pub fn new(region: &str, credentials: CredentialSource) -> (c: Self)
        ensures
            c.region@ == region@,
            c.credentials == credentials,
            c.wf(),
            c.endpoint is None,
            c.spec_endpoint_url() == aws_endpoint(region@),
            duration_nanos(c.retry.base_delay) == 100_000_000,
            duration_nanos(c.retry.max_delay) == 30_000_000_000,
            c.retry.max_retries == 5,
            c.transfer.multipart_threshold == 50 * 1024 * 1024,
            c.transfer.part_size == 50 * 1024 * 1024,
    {
        let resolved_endpoint = concat3("https://s3.", region, ".amazonaws.com");
        Config {
            credentials,
            endpoint: None,
            region: region.to_owned(),
            resolved_endpoint,
            retry: RetryPolicy::default(),
            transfer: TransferConfig::default(),
        }
    }

    /// Create a new config with a custom endpoint for S3-compatible backends.
    pub fn with_endpoint(region: &str, credentials: CredentialSource, endpoint: String) -> (c: Self)
        ensures
            c.region@ == region@,
            c.credentials == credentials,
            c.wf(),
            c.endpoint matches Some(e) && e@ == endpoint@,
            c.spec_endpoint_url() == endpoint@,
            duration_nanos(c.retry.base_delay) == 100_000_000,
            duration_nanos(c.retry.max_delay) == 30_000_000_000,
            c.retry.max_retries == 5,
            c.transfer.multipart_threshold == 50 * 1024 * 1024,
            c.transfer.part_size == 50 * 1024 * 1024,
    {
        let resolved_endpoint = endpoint.clone();
        Config {
            credentials,
            endpoint: Some(endpoint),
            region: region.to_owned(),
            resolved_endpoint,
            retry: RetryPolicy::default(),
            transfer: TransferConfig::default(),
        }
    }
}

} // verus!
