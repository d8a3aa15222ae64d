//! Batch download decisions: parallelism tuning and per-object plans.

use vstd::prelude::*;

use crate::auth::Credentials;
use crate::config::{Config, TransferConfig};
use crate::auth::sigv4::{unix_time_now, MAX_SIGNING_SECS};
use crate::error::{Error, Result};
use crate::http::request::{
    build_signed_at, clock_error, clock_message, signed_outcome, Method, SignedRequest,
};
use crate::ops::head::{object_url, object_url_of};
use crate::ops::list::ObjectInfo;
use crate::http::ObjectKey;
use crate::text::{decimal, push_decimal, strip_prefix};
use crate::transfer::part::Part;
use crate::transfer::scheduler::{
    ceil_div, compute_part_size, plan_parts, planned_parts, spec_compute_part_size,
    lemma_computed_part_size_within_limit, MAX_PART_SIZE, MAX_S3_PARTS,
};

verus! {

/// Default number of files downloaded in parallel.
pub const DEFAULT_WORKERS: usize = 32;
/// Default number of parts downloaded concurrently per file.
pub const DEFAULT_CONCURRENCY: usize = 8;
/// Total concurrent HTTP request budget used by [`tune_parallelism`].
pub const TOTAL_REQUEST_BUDGET: usize = 256;

/// Outcome for a single downloaded file.
#[derive(Debug, Clone)]
pub struct FileDownloadResult {
    /// Local path the file was written to.
    pub dest: String,
    /// S3 key that was downloaded.
    pub key: String,
    /// Number of parts used (1 = single GET).
    pub parts: u32,
    /// File size in bytes.
    pub size: u64,
}

/// A batch download request: all objects under `prefix` in `bucket` go
/// into `dest_dir`, keeping the key structure relative to the prefix.
#[derive(Debug, Clone)]
#[non_exhaustive]
pub struct DownloadRequest {
    /// Source S3 bucket.
    pub bucket: String,
    /// Number of parts downloaded concurrently within a single multipart download.
    pub concurrency_per_file: usize,
    /// Local directory to write files into.
    pub dest_dir: String,
    /// Key prefix in the bucket.
    pub prefix: String,
    /// Number of files downloaded in parallel.
    pub workers: usize,
}

/// Result of a batch download.
#[derive(Debug, Clone)]
pub struct DownloadResult {
    /// Per-file outcomes.
    pub files: Vec<FileDownloadResult>,
}

/// Parallelism settings returned by [`tune_parallelism`].
#[derive(Debug, Clone, Copy, PartialEq, Eq, Structural)]
#[non_exhaustive]
pub struct ParallelismConfig {
    /// Number of files downloaded in parallel.
    pub workers: usize,
    /// Number of parts downloaded concurrently within a single multipart download.
    pub concurrency_per_file: usize,
}

/// How many objects are at most `threshold` bytes.
pub open spec fn count_at_most(objects: Seq<ObjectInfo>, threshold: u64) -> nat
    decreases objects.len(),
{
    if objects.len() == 0 {
        0
    } else {
        count_at_most(objects.drop_last(), threshold) + if objects.last().size <= threshold {
            1nat
        } else {
            0nat
        }
    }
}

/// The median object size (the element at index `len / 2` in size order) is
/// at most `threshold` exactly when more than `len / 2` objects are.
pub open spec fn median_at_most(objects: Seq<ObjectInfo>, threshold: u64) -> bool {
    count_at_most(objects, threshold) > objects.len() / 2
}

/// The parallelism `tune_parallelism` picks.
pub open spec fn spec_tune(objects: Seq<ObjectInfo>, threshold: u64) -> ParallelismConfig {
    if objects.len() == 0 {
        ParallelismConfig { workers: DEFAULT_WORKERS, concurrency_per_file: DEFAULT_CONCURRENCY }
    } else if median_at_most(objects, threshold) {
        ParallelismConfig {
            workers: if objects.len() < TOTAL_REQUEST_BUDGET {
                objects.len() as usize
            } else {
                TOTAL_REQUEST_BUDGET
            },
            concurrency_per_file: 1,
        }
    } else {
        ParallelismConfig {
            workers: if objects.len() < TOTAL_REQUEST_BUDGET / DEFAULT_CONCURRENCY {
                objects.len() as usize
            } else {
                TOTAL_REQUEST_BUDGET / DEFAULT_CONCURRENCY
            },
            concurrency_per_file: DEFAULT_CONCURRENCY,
        }
    }
}

/// How many values of `s` are at most `t`.
pub open spec fn count_le(s: Seq<u64>, t: u64) -> nat
    decreases s.len(),
{
    if s.len() == 0 {
        0
    } else {
        count_le(s.drop_last(), t) + if s.last() <= t {
            1nat
        } else {
            0nat
        }
    }
}

proof fn lemma_count_le_concat(a: Seq<u64>, b: Seq<u64>, t: u64)
    ensures
        count_le(a + b, t) == count_le(a, t) + count_le(b, t),
    decreases b.len(),
{
    if b.len() == 0 {
        assert(a + b =~= a);
    } else {
        lemma_count_le_concat(a, b.drop_last(), t);
        assert((a + b).drop_last() =~= a + b.drop_last());
        assert((a + b).last() == b.last());
    }
}

proof fn lemma_count_le_single(x: u64, t: u64)
    ensures
        count_le(seq![x], t) == if x <= t {
            1nat
        } else {
            0nat
        },
{
    assert(seq![x].drop_last() =~= Seq::<u64>::empty());
    assert(seq![x].last() == x);
    assert(count_le(Seq::<u64>::empty(), t) == 0);
}

proof fn lemma_count_le_permutation(s1: Seq<u64>, s2: Seq<u64>, t: u64)
    requires
        s1.to_multiset() == s2.to_multiset(),
    ensures
        count_le(s1, t) == count_le(s2, t),
    decreases s1.len(),
{
    broadcast use {
        vstd::seq_lib::to_multiset_len,
        vstd::seq_lib::to_multiset_contains,
        vstd::seq_lib::to_multiset_remove,
        vstd::seq_lib::to_multiset_build,
    };

    assert(s1.to_multiset().len() == s1.len());
    assert(s2.to_multiset().len() == s2.len());
    if s1.len() == 0 {
        assert(s2.len() == 0);
        assert(s2 =~= s1);
    } else {
        let x = s1.last();
        assert(s1.drop_last().push(x) =~= s1);
        assert(s1.to_multiset().count(x) > 0);
        assert(s2.contains(x));
        let j = choose|j: int| 0 <= j < s2.len() && s2[j] == x;
        let rest = s2.remove(j);
        assert(rest.to_multiset() == s2.to_multiset().remove(x));
        assert(s1.drop_last().push(x).to_multiset() == s1.drop_last().to_multiset().insert(x));
        assert(rest.to_multiset() =~= s1.drop_last().to_multiset());
        lemma_count_le_permutation(s1.drop_last(), rest, t);
        let front = s2.subrange(0, j);
        let back = s2.subrange(j + 1, s2.len() as int);
        assert(rest =~= front + back);
        assert(s2 =~= front + seq![x] + back);
        lemma_count_le_concat(front, back, t);
        lemma_count_le_concat(front + seq![x], back, t);
        lemma_count_le_concat(front, seq![x], t);
        lemma_count_le_single(x, t);
    }
}

proof fn lemma_count_at_most_sizes(objects: Seq<ObjectInfo>, t: u64)
    ensures
        count_at_most(objects, t) == count_le(objects.map_values(|o: ObjectInfo| o.size), t),
    decreases objects.len(),
{
    if objects.len() > 0 {
        lemma_count_at_most_sizes(objects.drop_last(), t);
        assert(objects.map_values(|o: ObjectInfo| o.size).drop_last() =~= objects.drop_last().map_values(
            |o: ObjectInfo| o.size,
        ));
    }
}

proof fn lemma_count_le_sorted(s: Seq<u64>, t: u64, k: int)
    requires
        0 <= k < s.len(),
        forall|i: int, j: int| 0 <= i <= j < s.len() ==> s[i] <= s[j],
    ensures
        s[k] <= t ==> count_le(s, t) > k,
        s[k] > t ==> count_le(s, t) <= k,
{
    let front = s.take(k + 1);
    let back = s.skip(k + 1);
    assert(s =~= front + back);
    lemma_count_le_concat(front, back, t);
    if s[k] <= t {
        assert forall|m: nat| m <= k + 1 implies count_le(#[trigger] front.take(m as int), t) == m by {
            lemma_count_le_prefix_all(front, t, m);
        }
        assert(front.take(k + 1) =~= front);
    } else {
        lemma_count_le_prefix_none(s, t, k);
        lemma_count_le_upper(front.take(k), t);
        assert(front =~= s.take(k).push(s[k]));
        assert(front.drop_last() =~= s.take(k));
    }
}

proof fn lemma_count_le_upper(s: Seq<u64>, t: u64)
    ensures
        count_le(s, t) <= s.len(),
    decreases s.len(),
{
    if s.len() > 0 {
        lemma_count_le_upper(s.drop_last(), t);
    }
}

proof fn lemma_count_le_prefix_all(s: Seq<u64>, t: u64, m: nat)
    requires
        m <= s.len(),
        forall|i: int| 0 <= i < s.len() ==> #[trigger] s[i] <= s[s.len() - 1],
        s.len() > 0 ==> s[s.len() - 1] <= t,
    ensures
        count_le(s.take(m as int), t) == m,
    decreases m,
{
    if m > 0 {
        lemma_count_le_prefix_all(s, t, (m - 1) as nat);
        assert(s.take(m as int).drop_last() =~= s.take(m - 1));
        assert(s.take(m as int).last() == s[m - 1]);
    }
}

proof fn lemma_count_le_prefix_none(s: Seq<u64>, t: u64, k: int)
    requires
        0 <= k < s.len(),
        forall|i: int, j: int| 0 <= i <= j < s.len() ==> s[i] <= s[j],
        s[k] > t,
    ensures
        count_le(s.skip(k + 1), t) == 0,
{
    lemma_count_le_none(s.skip(k + 1), t, (s.len() - k - 1) as nat, s[k]);
}

proof fn lemma_count_le_none(s: Seq<u64>, t: u64, n: nat, floor: u64)
    requires
        n == s.len(),
        floor > t,
        forall|i: int| 0 <= i < s.len() ==> #[trigger] s[i] >= floor,
    ensures
        count_le(s, t) == 0,
    decreases n,
{
    if n > 0 {
        lemma_count_le_none(s.drop_last(), t, (n - 1) as nat, floor);
    }
}

/// The workload test of `tune_parallelism` is the median rule: for any
/// arrangement of the object sizes in ascending order, the size at index
/// `len / 2` (what `select_nth_unstable` picks) is at most the threshold
/// exactly when `median_at_most` holds.
pub proof fn lemma_tune_uses_median(objects: Seq<ObjectInfo>, sorted: Seq<u64>, threshold: u64)
    requires
        objects.len() > 0,
        forall|i: int, j: int| 0 <= i <= j < sorted.len() ==> sorted[i] <= sorted[j],
        sorted.to_multiset() == objects.map_values(|o: ObjectInfo| o.size).to_multiset(),
    ensures
        sorted.len() == objects.len(),
        median_at_most(objects, threshold) <==> sorted[(objects.len() / 2) as int] <= threshold,
{
    broadcast use vstd::seq_lib::to_multiset_len;

    let sizes = objects.map_values(|o: ObjectInfo| o.size);
    assert(sorted.to_multiset().len() == sorted.len());
    assert(sizes.to_multiset().len() == sizes.len());
    assert(sorted.len() == sizes.len());
    lemma_count_at_most_sizes(objects, threshold);
    lemma_count_le_permutation(sorted, sizes, threshold);
    lemma_count_le_sorted(sorted, threshold, (objects.len() / 2) as int);
}

/// The tuning law, over the object sizes sorted in ascending order:
/// - when the median size (index `len / 2`) is at most the threshold, one
///   GET per file: as many workers as objects, up to 256, and one part at a
///   time per file;
/// - otherwise 8 parts per file and as many workers as objects, up to
///   32 (so at most 256 requests in all);
/// - with no objects, the defaults: 32 workers and 8 parts per file.
pub proof fn lemma_tune_law(objects: Seq<ObjectInfo>, sorted: Seq<u64>, threshold: u64)
    requires
        forall|i: int, j: int| 0 <= i <= j < sorted.len() ==> sorted[i] <= sorted[j],
        sorted.to_multiset() == objects.map_values(|o: ObjectInfo| o.size).to_multiset(),
    ensures
        objects.len() == 0 ==> spec_tune(objects, threshold).workers == 32 && spec_tune(
            objects,
            threshold,
        ).concurrency_per_file == 8,
        objects.len() > 0 && sorted[(objects.len() / 2) as int] <= threshold ==> spec_tune(
            objects,
            threshold,
        ).workers == (if objects.len() < 256 {
            objects.len()
        } else {
            256
        }) && spec_tune(objects, threshold).concurrency_per_file == 1,
        objects.len() > 0 && sorted[(objects.len() / 2) as int] > threshold ==> spec_tune(
            objects,
            threshold,
        ).workers == (if objects.len() < 32 {
            objects.len()
        } else {
            32
        }) && spec_tune(objects, threshold).concurrency_per_file == 8,
{
    if objects.len() > 0 {
        lemma_tune_uses_median(objects, sorted, threshold);
    }
}

/// Pick `(workers, concurrency_per_file)` for a set of objects.
///
/// Uses a fixed budget of 256 concurrent requests, spread according to the
/// median object size relative to the multipart threshold:
///
/// - small-files workload (median at most the threshold): one GET per file,
///   so as many workers as files (up to the budget) and concurrency 1;
/// - large-files workload: 8 parts per file, and workers so that
///   `workers * concurrency` stays within the budget.
///
/// Returns the defaults (32 workers, 8 parts) for an empty list.
pub fn tune_parallelism(objects: &[ObjectInfo], multipart_threshold: u64) -> (c:
    ParallelismConfig)
    ensures
        c == spec_tune(objects@, multipart_threshold),
        1 <= c.workers,
        c.workers * c.concurrency_per_file <= TOTAL_REQUEST_BUDGET || objects@.len() == 0,
{
    let n = objects.len();
    if n == 0 {
        return ParallelismConfig {
            workers: DEFAULT_WORKERS,
            concurrency_per_file: DEFAULT_CONCURRENCY,
        };
    }
    let mut small: usize = 0;
    let mut i: usize = 0;
    while i < n
        invariant
            n == objects@.len(),
            i <= n,
            small <= i,
            small == count_at_most(objects@.take(i as int), multipart_threshold),
        decreases n - i,
    {
        proof {
            assert(objects@.take(i + 1).drop_last() =~= objects@.take(i as int));
        }
        if objects[i].size <= multipart_threshold {
            small = small + 1;
        }
        i = i + 1;
    }
    proof {
        assert(objects@.take(n as int) =~= objects@);
    }
    if small > n / 2 {
        let workers = if n < TOTAL_REQUEST_BUDGET { n } else { TOTAL_REQUEST_BUDGET };
        ParallelismConfig { workers, concurrency_per_file: 1 }
    } else {
        let cap = TOTAL_REQUEST_BUDGET / DEFAULT_CONCURRENCY;
        let workers = if n < cap { n } else { cap };
        ParallelismConfig { workers, concurrency_per_file: DEFAULT_CONCURRENCY }
    }
}

impl DownloadRequest {
    /// Create a new download request with the default parallelism
    /// (32 workers, 8 parts per file).
    pub fn new(bucket: &str, prefix: &str, dest_dir: &str) -> (r: Self)
        ensures
            r.bucket@ == bucket@,
            r.prefix@ == prefix@,
            r.dest_dir@ == dest_dir@,
            r.workers == DEFAULT_WORKERS,
            r.concurrency_per_file == DEFAULT_CONCURRENCY,
    {
        DownloadRequest {
            bucket: bucket.to_owned(),
            concurrency_per_file: DEFAULT_CONCURRENCY,
            dest_dir: dest_dir.to_owned(),
            prefix: prefix.to_owned(),
            workers: DEFAULT_WORKERS,
        }
    }

    /// Take the parallelism [`tune_parallelism`] picks for `objects`.
    pub fn auto_tune(self, objects: &[ObjectInfo], multipart_threshold: u64) -> (r: Self)
        ensures
            r.bucket == self.bucket,
            r.prefix == self.prefix,
            r.dest_dir == self.dest_dir,
            r.workers == spec_tune(objects@, multipart_threshold).workers,
            r.concurrency_per_file == spec_tune(objects@, multipart_threshold).concurrency_per_file,
    {
        let config = tune_parallelism(objects, multipart_threshold);
        DownloadRequest {
            bucket: self.bucket,
            concurrency_per_file: config.concurrency_per_file,
            dest_dir: self.dest_dir,
            prefix: self.prefix,
            workers: config.workers,
        }
    }

    /// The parallelism for a download whose first listed page is
    /// `first_page`: each of workers and per-file concurrency that was left
    /// at its default is replaced by the value [`tune_parallelism`] picks;
    /// one that was set explicitly is kept.
    pub fn tuned_for(self, first_page: &[ObjectInfo], multipart_threshold: u64) -> (r: Self)
        ensures
            r.bucket == self.bucket,
            r.prefix == self.prefix,
            r.dest_dir == self.dest_dir,
            r.workers == if self.workers == DEFAULT_WORKERS {
                spec_tune(first_page@, multipart_threshold).workers
            } else {
                self.workers
            },
            r.concurrency_per_file == if self.concurrency_per_file == DEFAULT_CONCURRENCY {
                spec_tune(first_page@, multipart_threshold).concurrency_per_file
            } else {
                self.concurrency_per_file
            },
    {
        let tuned = tune_parallelism(first_page, multipart_threshold);
        let workers = if self.workers == DEFAULT_WORKERS { tuned.workers } else { self.workers };
        let concurrency_per_file = if self.concurrency_per_file == DEFAULT_CONCURRENCY {
            tuned.concurrency_per_file
        } else {
            self.concurrency_per_file
        };
        DownloadRequest {
            bucket: self.bucket,
            concurrency_per_file,
            dest_dir: self.dest_dir,
            prefix: self.prefix,
            workers,
        }
    }
}

/// The size of the channel feeding the download workers: twice the workers
/// (saturating), at least one.
pub fn channel_capacity(workers: usize) -> (c: usize)
    ensures
        c == if workers > usize::MAX / 2 {
            usize::MAX
        } else if workers == 0 {
            1
        } else {
            (workers * 2) as usize
        },
{
    if workers > usize::MAX / 2 {
        usize::MAX
    } else if workers == 0 {
        1
    } else {
        workers * 2
    }
}

/// How one object is fetched.
#[derive(Debug, Clone)]
pub enum DownloadPlan {
    /// A single GET.
    Single,
    /// Concurrent ranged GETs, one per part.
    Multipart(Vec<Part>),
}

/// The plan for downloading one object.
#[derive(Debug, Clone)]
pub struct ObjectDownload {
    /// The key relative to the listing prefix: the local path under the
    /// destination directory.
    pub relative_key: String,
    /// The object's URL.
    pub url: String,
    /// How it is fetched.
    pub plan: DownloadPlan,
}

/// The key of `key` under `prefix`: the rest after the prefix, or the whole
/// key when it does not start with the prefix.
pub open spec fn relative_key_spec(key: Seq<char>, prefix: Seq<char>) -> Seq<char> {
    if crate::text::has_prefix(key, prefix) {
        key.subrange(prefix.len() as int, key.len() as int)
    } else {
        key
    }
}

/// Whether `plan_download` can plan an object of `size` bytes: it either
/// goes in one GET or fits in 10,000 parts of the largest part size.
pub open spec fn plannable(size: u64, multipart_threshold: u64) -> bool {
    size <= multipart_threshold || size <= MAX_S3_PARTS * MAX_PART_SIZE
}

/// Plan the download of `obj` from `bucket`: objects up to the multipart
/// threshold in a single GET, larger ones in parts sized by
/// `compute_part_size` for the per-file concurrency.
pub fn plan_download(
    config: &Config,
    bucket: &str,
    prefix: &str,
    obj: &ObjectInfo,
    concurrency: usize,
) -> (d: ObjectDownload)
    requires
        plannable(obj.size, config.transfer.multipart_threshold),
    ensures
        d.relative_key@ == relative_key_spec(obj.key@, prefix@),
        d.url@ == object_url(config.spec_endpoint_url(), bucket@, obj.key@),
        obj.size <= config.transfer.multipart_threshold ==> d.plan is Single,
        obj.size > config.transfer.multipart_threshold ==> (d.plan matches DownloadPlan::Multipart(
            parts,
        ) && parts@ == planned_parts(
            obj.size as nat,
            spec_compute_part_size(obj.size as nat, concurrency as nat),
        )),
{
    let relative_key = match strip_prefix(obj.key.as_str(), prefix) {
        Some(rest) => rest,
        None => obj.key.clone(),
    };
    let key = ObjectKey::new(obj.key.as_str());
    let url = object_url_of(config.endpoint_url(), bucket, &key);
    if obj.size <= config.transfer.multipart_threshold {
        ObjectDownload { relative_key, url, plan: DownloadPlan::Single }
    } else {
        let part_size = compute_part_size(obj.size, concurrency);
        proof {
            lemma_computed_part_size_within_limit(obj.size as nat, concurrency as nat);
        }
        let transfer = TransferConfig::new(config.transfer.multipart_threshold, part_size);
        let parts = plan_parts(obj.size, &transfer);
        ObjectDownload { relative_key, url, plan: DownloadPlan::Multipart(parts) }
    }
}

/// The `Range` header value for a part: `bytes={first}-{last}`.
pub open spec fn range_header_spec(offset: nat, size: nat) -> Seq<char> {
    "bytes="@ + decimal(offset) + "-"@ + decimal((offset + size - 1) as nat)
}

/// The `Range` header value for a part of `size` bytes at `offset`.
pub fn range_header(offset: u64, size: u64) -> (s: String)
    requires
        size > 0,
        offset + size - 1 <= u64::MAX,
    ensures
        s@ == range_header_spec(offset as nat, size as nat),
{
    let mut s = "bytes=".to_owned();
    push_decimal(&mut s, offset);
    s.append("-");
    push_decimal(&mut s, offset + (size - 1));
    s
}

/// `r` is the signing result `signed` with the `Range` header of `part`
/// added: an error passes through unchanged; a signed request keeps its
/// method, URI and body, and gets `range: bytes={first}-{last}` after its
/// signature headers (the range is not signed).
pub open spec fn ranged(r: Result<SignedRequest>, signed: Result<SignedRequest>, part: Part) -> bool {
    match signed {
        Err(e) => r == Err::<SignedRequest, Error>(e),
        Ok(q) => r matches Ok(q2) && q2.method == q.method && q2.uri@ == q.uri@ && q2.body@ == q.body@
            && q2.headers.deep_view() == q.headers.deep_view().push(
            ("range"@, range_header_spec(part.offset as nat, part.size as nat)),
        ),
    }
}

/// Add the `Range` header of `part` to a signing result.
pub fn with_range(signed: Result<SignedRequest>, part: &Part) -> (r: Result<SignedRequest>)
    requires
        part.size > 0,
        part.offset + part.size - 1 <= u64::MAX,
    ensures
        ranged(r, signed, *part),
{
    match signed {
        Err(e) => Err(e),
        Ok(req) => {
            let range = range_header(part.offset, part.size);
            let ghost base = req.headers.deep_view();
            let mut headers = req.headers;
            headers.push(("range".to_owned(), range));
            proof {
                reveal_strlit("range");
                assert(headers.deep_view() =~= base.push(
                    ("range"@, range_header_spec(part.offset as nat, part.size as nat)),
                ));
            }
            Ok(SignedRequest { method: req.method, uri: req.uri, headers, body: req.body })
        },
    }
}

/// What the ranged `GET` for `part` of the object at `url` is when signed
/// at `unix_secs`: the `GET` with an empty body signed at that time, with
/// the part's `Range` header added.
pub open spec fn part_outcome(
    r: Result<SignedRequest>,
    config: Config,
    creds: Credentials,
    url: Seq<char>,
    part: Part,
    unix_secs: u64,
) -> bool {
    exists|s: Result<SignedRequest>|
        signed_outcome(s, Method::Get, url, 0, Some(Seq::empty()), Seq::empty(), creds,
            config.region@, unix_secs) && #[trigger] ranged(r, s, part)
}

/// The signed ranged `GET` for one part of an object at `url`, signed at
/// `unix_secs` (seconds since the epoch).
pub fn part_request_at(
    config: &Config,
    creds: &Credentials,
    url: &str,
    part: &Part,
    unix_secs: u64,
) -> (r: Result<SignedRequest>)
    requires
        part.size > 0,
        part.offset + part.size - 1 <= u64::MAX,
        unix_secs <= MAX_SIGNING_SECS,
    ensures
        part_outcome(r, *config, *creds, url@, *part, unix_secs),
{
    let v: Vec<u8> = Vec::new();
    proof {
        assert(v@ =~= Seq::<u8>::empty());
    }
    let signed = build_signed_at(Method::Get, url, v, creds, config.region.as_str(), unix_secs);
    let ghost sg = signed;
    let r = with_range(signed, part);
    proof {
        assert(ranged(r, sg, *part));
    }
    r
}

/// What the ranged `GET` for `part` is when the clock reads `unix_secs`:
/// past the signable range, an `Auth` error; else the request signed then.
pub open spec fn part_now(
    r: Result<SignedRequest>,
    config: Config,
    creds: Credentials,
    url: Seq<char>,
    part: Part,
    unix_secs: u64,
) -> bool {
    if unix_secs > MAX_SIGNING_SECS {
        r matches Err(Error::Auth(m)) && m@ == clock_message()
    } else {
        part_outcome(r, config, creds, url, part, unix_secs)
    }
}

/// The signed ranged `GET` for one part of an object at `url`, signed at
/// the current time (an `Auth` error if the clock reads past the signable
/// range).
pub fn part_request(
    config: &Config,
    creds: &Credentials,
    url: &str,
    part: &Part,
) -> (r: Result<SignedRequest>)
    requires
        part.size > 0,
        part.offset + part.size - 1 <= u64::MAX,
    ensures
        exists|t: u64| part_now(r, *config, *creds, url@, *part, t),
{
    let now = unix_time_now();
    if now > MAX_SIGNING_SECS {
        let r = clock_error();
        assert(part_now(r, *config, *creds, url@, *part, now));
        return r;
    }
    let r = part_request_at(config, creds, url, part, now);
    assert(part_now(r, *config, *creds, url@, *part, now));
    r
}

} // verus!
