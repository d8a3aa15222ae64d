//! Head-object operation: object metadata without the body.

use vstd::prelude::*;

use crate::auth::Credentials;
use crate::config::Config;
use crate::error::Result;
use crate::http::request::{build_signed, signed_now, Method, SignedRequest};
use crate::http::{percent_encode, EncodeSet, ObjectKey};
use crate::text::{concat3, has_prefix, parse_u64, parse_u64_spec, strip_prefix};

verus! {

/// Response headers as the caller hands them over: each header's (lower
/// case) name with its value, or `None` where the value is not visible
/// ASCII; in the order of the header map, so that the first entry of a
/// name is the value a lookup gives.
pub type HeaderList = Vec<(String, Option<String>)>;

/// Output from a `HEAD` object request.
#[derive(Debug, Clone)]
#[non_exhaustive]
pub struct HeadObjectOutput {
    /// Object size in bytes.
    pub content_length: u64,
    /// MIME type of the object.
    pub content_type: Option<String>,
    /// Entity tag.
    pub etag: Option<String>,
    /// Last modified timestamp (RFC 2822 / HTTP-date).
    pub last_modified: Option<String>,
    /// User-defined metadata (`x-amz-meta-*` headers), one entry per key.
    pub metadata: Vec<(String, String)>,
    /// Server-side encryption algorithm, if any.
    pub server_side_encryption: Option<String>,
    /// Storage class (e.g. `STANDARD`, `GLACIER`).
    pub storage_class: Option<String>,
    /// Version ID when bucket versioning is enabled.
    pub version_id: Option<String>,
}

/// A `HEAD` object request.
#[derive(Debug, Clone)]
#[non_exhaustive]
pub struct HeadObjectRequest {
    /// Target S3 bucket.
    pub bucket: String,
    /// Object key.
    pub key: String,
}

impl HeadObjectRequest {
    /// Create a new head-object request.
    pub fn new(bucket: &str, key: &str) -> (r: Self)
        ensures
            r.bucket@ == bucket@,
            r.key@ == key@,
    {
        HeadObjectRequest { bucket: bucket.to_owned(), key: key.to_owned() }
    }
}

/// The URL of an object: endpoint, bucket and percent-encoded key.
pub open spec fn object_url(endpoint: Seq<char>, bucket: Seq<char>, key: Seq<char>) -> Seq<char> {
    endpoint + "/"@ + bucket + "/"@ + percent_encode(key, EncodeSet::KeyPath)
}

/// The URL of an object: `{endpoint}/{bucket}/{encoded key}`.
pub fn object_url_of(endpoint: &str, bucket: &str, key: &ObjectKey) -> (u: String)
    ensures
        u@ == object_url(endpoint@, bucket@, key.spec_raw()),
{
    let mut u = concat3(endpoint, "/", bucket);
    u.append("/");
    u.append(key.encoded());
    u
}

/// The signed `HEAD` request for `req` (sent afresh on every attempt).
pub fn head_request(config: &Config, creds: &Credentials, req: &HeadObjectRequest) -> (r: Result<
    SignedRequest,
>)
    ensures
        exists|t: u64|
            signed_now(r, Method::Head, object_url(config.spec_endpoint_url(), req.bucket@,
                req.key@), 0, Some(Seq::empty()), Seq::empty(), *creds, config.region@, t),
{
    let key = ObjectKey::new(req.key.as_str());
    let url = object_url_of(config.endpoint_url(), req.bucket.as_str(), &key);
    let v: Vec<u8> = Vec::new();
    proof {
        assert(v@ =~= Seq::<u8>::empty());
    }
    let r = build_signed(Method::Head, url.as_str(), v, creds, config.region.as_str());
    proof {
        let t = choose|t: u64| signed_now(r, Method::Head, url@, 0, Some(Seq::empty()),
            Seq::empty(), *creds, config.region@, t);
        assert(signed_now(r, Method::Head, object_url(config.spec_endpoint_url(), req.bucket@,
            req.key@), 0, Some(Seq::empty()), Seq::empty(), *creds, config.region@, t));
    }
    r
}

/// The value of the first header named `name`: `None` when there is none,
/// `Some(None)` when its value is not visible ASCII.
pub open spec fn header_lookup(headers: Seq<(Seq<char>, Option<Seq<char>>)>, name: Seq<char>) -> Option<
    Option<Seq<char>>,
>
    decreases headers.len(),
{
    if headers.len() == 0 {
        None
    } else if headers[0].0 == name {
        Some(headers[0].1)
    } else {
        header_lookup(headers.drop_first(), name)
    }
}

/// The text of a header, when it is present with a readable value.
pub open spec fn header_text(headers: Seq<(Seq<char>, Option<Seq<char>>)>, name: Seq<char>) -> Option<
    Seq<char>,
> {
    match header_lookup(headers, name) {
        Some(Some(v)) => Some(v),
        _ => None,
    }
}

fn find_header(headers: &HeaderList, name: &str) -> (r: Option<String>)
    ensures
        opt_text(r) == header_text(headers.deep_view(), name@),
{
    let key = name.to_owned();
    let mut i: usize = 0;
    proof {
        assert(headers.deep_view().skip(0) =~= headers.deep_view());
    }
    while i < headers.len()
        invariant
            i <= headers.len(),
            key@ == name@,
            header_lookup(headers.deep_view(), name@) == header_lookup(
                headers.deep_view().skip(i as int),
                name@,
            ),
        decreases headers.len() - i,
    {
        proof {
            assert(headers.deep_view().skip(i as int).drop_first() =~= headers.deep_view().skip(
                i + 1,
            ));
            assert(headers.deep_view().skip(i as int)[0] == headers.deep_view()[i as int]);
        }
        if headers[i].0 == key {
            return match &headers[i].1 {
                Some(v) => Some(v.clone()),
                None => None,
            };
        }
        i = i + 1;
    }
    None
}

/// The text of an optional string.
pub open spec fn opt_text(s: Option<String>) -> Option<Seq<char>> {
    match s {
        Some(v) => Some(v@),
        None => None,
    }
}

/// The user metadata in `headers`: each `x-amz-meta-*` header, in order, as
/// (name without the prefix, value or the empty text when unreadable).
pub open spec fn meta_entries(headers: Seq<(Seq<char>, Option<Seq<char>>)>) -> Seq<
    (Seq<char>, Seq<char>),
>
    decreases headers.len(),
{
    if headers.len() == 0 {
        Seq::empty()
    } else {
        let (n, v) = headers.last();
        let rest = meta_entries(headers.drop_last());
        if has_prefix(n, "x-amz-meta-"@) {
            rest.push(
                (
                    n.subrange(11, n.len() as int),
                    match v {
                        Some(t) => t,
                        None => Seq::empty(),
                    },
                ),
            )
        } else {
            rest
        }
    }
}

/// Entries collected into a map, a later entry replacing an earlier one of
/// the same key (as collecting into a `HashMap` does).
pub open spec fn entries_map(entries: Seq<(Seq<char>, Seq<char>)>) -> Map<Seq<char>, Seq<char>>
    decreases entries.len(),
{
    if entries.len() == 0 {
        Map::empty()
    } else {
        entries_map(entries.drop_last()).insert(entries.last().0, entries.last().1)
    }
}

/// A list of pairs with distinct keys, read as a map.
pub open spec fn pairs_map(pairs: Seq<(Seq<char>, Seq<char>)>) -> Map<Seq<char>, Seq<char>> {
    Map::new(
        |k: Seq<char>| exists|i: int| 0 <= i < pairs.len() && pairs[i].0 == k,
        |k: Seq<char>| pairs[choose|i: int| 0 <= i < pairs.len() && pairs[i].0 == k].1,
    )
}

/// No key occurs twice.
pub open spec fn distinct_keys(pairs: Seq<(Seq<char>, Seq<char>)>) -> bool {
    forall|i: int, j: int|
        0 <= i < pairs.len() && 0 <= j < pairs.len() && i != j ==> #[trigger] pairs[i].0
            != #[trigger] pairs[j].0
}

/// `insert` on a pair list with distinct keys is `insert` on its map.
proof fn lemma_pairs_map_update(pairs: Seq<(Seq<char>, Seq<char>)>, i: int, v: Seq<char>)
    requires
        distinct_keys(pairs),
        0 <= i < pairs.len(),
    ensures
        distinct_keys(pairs.update(i, (pairs[i].0, v))),
        pairs_map(pairs.update(i, (pairs[i].0, v))) =~= pairs_map(pairs).insert(pairs[i].0, v),
{
    let p2 = pairs.update(i, (pairs[i].0, v));
    assert forall|k: Seq<char>| #[trigger] pairs_map(p2).contains_key(k) implies pairs_map(
        pairs,
    ).insert(pairs[i].0, v).contains_key(k) by {
        let j = choose|j: int| 0 <= j < p2.len() && p2[j].0 == k;
        assert(pairs[j].0 == k);
    }
    assert forall|k: Seq<char>| #[trigger] pairs_map(pairs).insert(pairs[i].0, v).contains_key(
        k,
    ) implies pairs_map(p2).contains_key(k) by {
        if k == pairs[i].0 {
            assert(p2[i].0 == k);
        } else {
            let j = choose|j: int| 0 <= j < pairs.len() && pairs[j].0 == k;
            assert(p2[j].0 == k);
        }
    }
    assert forall|k: Seq<char>| #[trigger] pairs_map(p2).contains_key(k) implies pairs_map(p2)[k]
        == pairs_map(pairs).insert(pairs[i].0, v)[k] by {
        let j = choose|j: int| 0 <= j < p2.len() && p2[j].0 == k;
        if k == pairs[i].0 {
            assert(j == i);
        } else {
            let j2 = choose|j: int| 0 <= j < pairs.len() && pairs[j].0 == k;
            assert(j == j2);
        }
    }
}

/// Pushing a new key onto a pair list with distinct keys is `insert` on its map.
proof fn lemma_pairs_map_push(pairs: Seq<(Seq<char>, Seq<char>)>, k: Seq<char>, v: Seq<char>)
    requires
        distinct_keys(pairs),
        forall|i: int| 0 <= i < pairs.len() ==> #[trigger] pairs[i].0 != k,
    ensures
        distinct_keys(pairs.push((k, v))),
        pairs_map(pairs.push((k, v))) =~= pairs_map(pairs).insert(k, v),
{
    let p2 = pairs.push((k, v));
    assert forall|q: Seq<char>| #[trigger] pairs_map(p2).contains_key(q) implies pairs_map(
        pairs,
    ).insert(k, v).contains_key(q) by {
        let j = choose|j: int| 0 <= j < p2.len() && p2[j].0 == q;
        if j < pairs.len() {
            assert(pairs[j].0 == q);
        }
    }
    assert forall|q: Seq<char>| #[trigger] pairs_map(pairs).insert(k, v).contains_key(
        q,
    ) implies pairs_map(p2).contains_key(q) by {
        if q == k {
            assert(p2[pairs.len() as int].0 == q);
        } else {
            let j = choose|j: int| 0 <= j < pairs.len() && pairs[j].0 == q;
            assert(p2[j].0 == q);
        }
    }
    assert forall|q: Seq<char>| #[trigger] pairs_map(p2).contains_key(q) implies pairs_map(p2)[q]
        == pairs_map(pairs).insert(k, v)[q] by {
        let j = choose|j: int| 0 <= j < p2.len() && p2[j].0 == q;
        if q == k {
            assert(j == pairs.len());
        } else {
            let j2 = choose|j: int| 0 <= j < pairs.len() && pairs[j].0 == q;
            assert(j == j2);
        }
    }
}

fn collect_metadata(headers: &HeaderList) -> (m: Vec<(String, String)>)
    ensures
        distinct_keys(m.deep_view()),
        pairs_map(m.deep_view()) == entries_map(meta_entries(headers.deep_view())),
{
    let mut m: Vec<(String, String)> = Vec::new();
    let mut i: usize = 0;
    proof {
        assert(pairs_map(m.deep_view()) =~= Map::<Seq<char>, Seq<char>>::empty());
    }
    while i < headers.len()
        invariant
            i <= headers.len(),
            distinct_keys(m.deep_view()),
            pairs_map(m.deep_view()) == entries_map(meta_entries(headers.deep_view().take(i as int))),
        decreases headers.len() - i,
    {
        let ghost hv = headers.deep_view();
        proof {
            assert(hv.take(i + 1).drop_last() =~= hv.take(i as int));
            assert(hv.take(i + 1).last() == hv[i as int]);
        }
        let stripped = strip_prefix(headers[i].0.as_str(), "x-amz-meta-");
        proof {
            reveal_strlit("x-amz-meta-");
            assert(hv[i as int].0 == headers@[i as int].0@);
        }
        match stripped {
            None => {
                proof {
                    assert(meta_entries(hv.take(i + 1)) == meta_entries(hv.take(i as int)));
                }
            },
            Some(meta_key) => {
                let value = match &headers[i].1 {
                    Some(v) => v.clone(),
                    None => String::new(),
                };
                proof {
                    let e = meta_entries(hv.take(i as int));
                    assert(meta_entries(hv.take(i + 1)) == e.push((meta_key@, value@)));
                    assert(e.push((meta_key@, value@)).drop_last() =~= e);
                    assert(entries_map(meta_entries(hv.take(i + 1))) == entries_map(e).insert(
                        meta_key@,
                        value@,
                    ));
                }
                let mut j: usize = 0;
                while j < m.len()
                    invariant_except_break
                        forall|q: int| 0 <= q < j ==> #[trigger] m.deep_view()[q].0 != meta_key@,
                    invariant
                        j <= m.len(),
                    ensures
                        j < m.len() ==> m.deep_view()[j as int].0 == meta_key@,
                        j == m.len() ==> forall|q: int|
                            0 <= q < m.len() ==> #[trigger] m.deep_view()[q].0 != meta_key@,
                    decreases m.len() - j,
                {
                    if m[j].0 == meta_key {
                        break;
                    }
                    j = j + 1;
                }
                let ghost before = m.deep_view();
                if j < m.len() {
                    let k = m[j].0.clone();
                    m.set(j, (k, value));
                    proof {
                        lemma_pairs_map_update(before, j as int, value@);
                        assert(m.deep_view() =~= before.update(j as int, (before[j as int].0, value@)));
                    }
                } else {
                    m.push((meta_key, value));
                    proof {
                        lemma_pairs_map_push(before, meta_key@, value@);
                        assert(m.deep_view() =~= before.push((meta_key@, value@)));
                    }
                }
            },
        }
        i = i + 1;
    }
    proof {
        assert(headers.deep_view().take(headers.len() as int) =~= headers.deep_view());
    }
    m
}

/// The output a HEAD response with these headers describes.
pub open spec fn head_output_spec(o: HeadObjectOutput, headers: Seq<(Seq<char>, Option<Seq<char>>)>) -> bool {
    &&& o.content_length == match header_text(headers, "content-length"@) {
        Some(t) => match parse_u64_spec(vstd::utf8::encode_utf8(t)) {
            Some(n) => n,
            None => 0,
        },
        None => 0,
    }
    &&& opt_text(o.content_type) == header_text(headers, "content-type"@)
    &&& opt_text(o.etag) == header_text(headers, "etag"@)
    &&& opt_text(o.last_modified) == header_text(headers, "last-modified"@)
    &&& opt_text(o.version_id) == header_text(headers, "x-amz-version-id"@)
    &&& opt_text(o.storage_class) == header_text(headers, "x-amz-storage-class"@)
    &&& opt_text(o.server_side_encryption) == header_text(headers, "x-amz-server-side-encryption"@)
    &&& distinct_keys(o.metadata.deep_view())
    &&& pairs_map(o.metadata.deep_view()) == entries_map(meta_entries(headers))
}

/// Parse the HEAD response headers into a [`HeadObjectOutput`].
pub fn parse_head_response(headers: &HeaderList) -> (o: HeadObjectOutput)
    ensures
        head_output_spec(o, headers.deep_view()),
{
    let content_length = match find_header(headers, "content-length") {
        Some(v) => match parse_u64(v.as_str()) {
            Some(n) => n,
            None => 0,
        },
        None => 0,
    };
    HeadObjectOutput {
        content_length,
        content_type: find_header(headers, "content-type"),
        etag: find_header(headers, "etag"),
        last_modified: find_header(headers, "last-modified"),
        metadata: collect_metadata(headers),
        server_side_encryption: find_header(headers, "x-amz-server-side-encryption"),
        storage_class: find_header(headers, "x-amz-storage-class"),
        version_id: find_header(headers, "x-amz-version-id"),
    }
}

} // verus!
