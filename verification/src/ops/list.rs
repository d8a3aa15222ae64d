//! Paginated object listing: `ListObjectsV2`.

use vstd::prelude::*;

use crate::auth::Credentials;
use crate::config::Config;
use crate::error::Result;
use crate::http::request::{build_signed, signed_now, Method, SignedRequest};
use crate::http::response::{CommonPrefix, ListBucketResult, ListObject};
use crate::http::{percent_encode, utf8_percent_encode, EncodeSet};
use crate::text::concat3;

verus! {

/// Metadata for a single S3 object.
#[derive(Debug)]
#[non_exhaustive]
pub struct ObjectInfo {
    /// Object key.
    pub key: String,
    /// Object size in bytes.
    pub size: u64,
    /// `ETag` of the object.
    pub etag: String,
    /// Last modified timestamp (ISO 8601).
    pub last_modified: String,
}

/// The `ObjectInfo` of a listed object: the same four fields.
pub open spec fn object_info_of(o: ListObject) -> ObjectInfo {
    ObjectInfo { key: o.key, size: o.size, etag: o.etag, last_modified: o.last_modified }
}

impl ObjectInfo {
    /// Metadata from its four fields.
    pub fn new(key: String, size: u64, etag: String, last_modified: String) -> (o: Self)
        ensures
            o == (ObjectInfo { key, size, etag, last_modified }),
    {
        ObjectInfo { key, size, etag, last_modified }
    }
}

impl Clone for ObjectInfo {
    fn clone(&self) -> (r: Self)
        ensures
            r == *self,
    {
        ObjectInfo {
            key: self.key.clone(),
            size: self.size,
            etag: self.etag.clone(),
            last_modified: self.last_modified.clone(),
        }
    }
}

impl From<ListObject> for ObjectInfo {
    fn from(o: ListObject) -> (r: Self)
        ensures
            r == object_info_of(o),
    {
        ObjectInfo { key: o.key, size: o.size, etag: o.etag, last_modified: o.last_modified }
    }
}

impl vstd::std_specs::convert::FromSpecImpl<ListObject> for ObjectInfo {
    open spec fn obeys_from_spec() -> bool {
        true
    }

    open spec fn from_spec(v: ListObject) -> ObjectInfo {
        object_info_of(v)
    }
}

/// A single page of listing results.
#[derive(Debug, Clone)]
#[non_exhaustive]
pub struct ListPage {
    /// Objects in this page.
    pub objects: Vec<ObjectInfo>,
    /// Common prefixes (when a delimiter is used).
    pub common_prefixes: Vec<String>,
}

/// What to list.
#[derive(Debug)]
#[non_exhaustive]
pub struct ListRequest {
    /// Target S3 bucket.
    pub bucket: String,
    /// Key prefix to filter by.
    pub prefix: String,
    /// Delimiter for grouping keys (e.g. `"/"`).
    pub delimiter: Option<String>,
}

impl ListRequest {
    /// Create a new list request, without a delimiter.
    pub fn new(bucket: &str, prefix: &str) -> (r: Self)
        ensures
            r.bucket@ == bucket@,
            r.prefix@ == prefix@,
            r.delimiter is None,
    {
        ListRequest { bucket: bucket.to_owned(), prefix: prefix.to_owned(), delimiter: None }
    }

    /// Set a delimiter for directory-style grouping.
    pub fn with_delimiter(self, delimiter: &str) -> (r: Self)
        ensures
            r.bucket == self.bucket,
            r.prefix == self.prefix,
            r.delimiter matches Some(d) && d@ == delimiter@,
    {
        ListRequest { bucket: self.bucket, prefix: self.prefix, delimiter: Some(delimiter.to_owned()) }
    }
}

/// The text of an optional string (`None` as the empty text is never used:
/// callers test for `None` first).
pub open spec fn opt_view(s: Option<String>) -> Option<Seq<char>> {
    match s {
        Some(v) => Some(v@),
        None => None,
    }
}

/// The URL of one `ListObjectsV2` page: the bucket under the endpoint, with
/// the prefix, the delimiter (if any) and the continuation token (if any)
/// percent-encoded as query components.
pub open spec fn list_url(
    endpoint: Seq<char>,
    bucket: Seq<char>,
    prefix: Seq<char>,
    delimiter: Option<Seq<char>>,
    token: Option<Seq<char>>,
) -> Seq<char> {
    endpoint + "/"@ + bucket + "?list-type=2&prefix="@ + percent_encode(prefix, EncodeSet::Component)
        + match delimiter {
        Some(d) => "&delimiter="@ + percent_encode(d, EncodeSet::Component),
        None => Seq::empty(),
    } + match token {
        Some(t) => "&continuation-token="@ + percent_encode(t, EncodeSet::Component),
        None => Seq::empty(),
    }
}

/// Every page of a listing carries the same query: the URL of a later page
/// is the URL of the first page followed by `&continuation-token=` and the
/// encoded token, so the prefix (`prefix=` and the component-encoded
/// prefix) and the delimiter appear on every page, and the URL begins with
/// the endpoint, the bucket and that prefix.
pub proof fn lemma_page_urls(
    endpoint: Seq<char>,
    bucket: Seq<char>,
    prefix: Seq<char>,
    delimiter: Option<Seq<char>>,
    token: Seq<char>,
)
    ensures
        list_url(endpoint, bucket, prefix, delimiter, Some(token)) == list_url(
            endpoint,
            bucket,
            prefix,
            delimiter,
            None,
        ) + "&continuation-token="@ + percent_encode(token, EncodeSet::Component),
        forall|t: Option<Seq<char>>|
            #[trigger] list_url(endpoint, bucket, prefix, delimiter, t).subrange(
                0,
                (endpoint.len() + 1 + bucket.len() + 20 + percent_encode(
                    prefix,
                    EncodeSet::Component,
                ).len()) as int,
            ) == endpoint + "/"@ + bucket + "?list-type=2&prefix="@ + percent_encode(
                prefix,
                EncodeSet::Component,
            ),
        list_url(endpoint, bucket, prefix, None, None) == endpoint + "/"@ + bucket
            + "?list-type=2&prefix="@ + percent_encode(prefix, EncodeSet::Component),
{
    reveal_strlit("?list-type=2&prefix=");
    reveal_strlit("/");
    let head = endpoint + "/"@ + bucket + "?list-type=2&prefix="@ + percent_encode(
        prefix,
        EncodeSet::Component,
    );
    let d = match delimiter {
        Some(d) => "&delimiter="@ + percent_encode(d, EncodeSet::Component),
        None => Seq::<char>::empty(),
    };
    assert(list_url(endpoint, bucket, prefix, delimiter, Some(token)) =~= list_url(
        endpoint,
        bucket,
        prefix,
        delimiter,
        None,
    ) + "&continuation-token="@ + percent_encode(token, EncodeSet::Component));
    assert(list_url(endpoint, bucket, prefix, None, None) =~= head);
    assert forall|t: Option<Seq<char>>|
        #[trigger] list_url(endpoint, bucket, prefix, delimiter, t).subrange(
            0,
            (endpoint.len() + 1 + bucket.len() + 20 + percent_encode(
                prefix,
                EncodeSet::Component,
            ).len()) as int,
        ) == head by {
        let tk = match t {
            Some(x) => "&continuation-token="@ + percent_encode(x, EncodeSet::Component),
            None => Seq::<char>::empty(),
        };
        assert(list_url(endpoint, bucket, prefix, delimiter, t) =~= head + (d + tk));
        assert(head.len() == endpoint.len() + 1 + bucket.len() + 20 + percent_encode(
            prefix,
            EncodeSet::Component,
        ).len());
        assert((head + (d + tk)).subrange(0, head.len() as int) =~= head);
    }
}

/// Paginated S3 object listing.
///
/// Produces the signed request for each page and digests each page's
/// response; the caller sends the requests. Pages come in order until the
/// listing is exhausted.
#[derive(Debug)]
pub struct ListPaginator {
    bucket: String,
    config: Config,
    continuation_token: Option<String>,
    creds: Credentials,
    delimiter: Option<String>,
    done: bool,
    prefix: String,
}

impl ListPaginator {
    /// Whether the listing is exhausted.
    pub closed spec fn spec_done(&self) -> bool {
        self.done
    }

    /// The token to resume the listing with, if any.
    pub closed spec fn spec_token(&self) -> Option<Seq<char>> {
        opt_view(self.continuation_token)
    }

    /// The URL of the page that the continuation token `token` leads to.
    pub closed spec fn spec_url_for(&self, token: Option<Seq<char>>) -> Seq<char> {
        list_url(
            self.config.spec_endpoint_url(),
            self.bucket@,
            self.prefix@,
            opt_view(self.delimiter),
            token,
        )
    }

    /// The URL of the next page.
    pub open spec fn spec_url(&self) -> Seq<char> {
        self.spec_url_for(self.spec_token())
    }

    /// The credentials requests are signed with.
    pub closed spec fn spec_creds(&self) -> Credentials {
        self.creds
    }

    /// The region requests are signed for.
    pub closed spec fn spec_region(&self) -> Seq<char> {
        self.config.region@
    }

    /// A paginator for `req`, before any page is fetched.
    pub fn new(config: Config, creds: Credentials, req: ListRequest) -> (p: Self)
        ensures
            !p.spec_done(),
            p.spec_token() is None,
            p.spec_url() == list_url(
                config.spec_endpoint_url(),
                req.bucket@,
                req.prefix@,
                opt_view(req.delimiter),
                None,
            ),
            p.spec_creds() == creds,
            p.spec_region() == config.region@,
    {
        ListPaginator {
            bucket: req.bucket,
            config,
            continuation_token: None,
            creds,
            delimiter: req.delimiter,
            done: false,
            prefix: req.prefix,
        }
    }

    /// Whether the listing is exhausted.
    pub fn is_done(&self) -> (b: bool)
        ensures
            b == self.spec_done(),
    {
        self.done
    }

    /// The URL of the next page, or `None` when the listing is exhausted.
    pub fn next_url(&self) -> (u: Option<String>)
        ensures
            self.spec_done() ==> u is None,
            !self.spec_done() ==> (u matches Some(s) && s@ == self.spec_url()),
    {
        if self.done {
            return None;
        }
        let mut query = concat3(self.config.endpoint_url(), "/", self.bucket.as_str());
        query.append("?list-type=2&prefix=");
        let p = utf8_percent_encode(self.prefix.as_str(), EncodeSet::Component);
        query.append(p.as_str());
        let ghost mid = query@;
        match &self.delimiter {
            Some(d) => {
                query.append("&delimiter=");
                let e = utf8_percent_encode(d.as_str(), EncodeSet::Component);
                query.append(e.as_str());
            },
            None => {},
        }
        let ghost mid2 = query@;
        match &self.continuation_token {
            Some(t) => {
                query.append("&continuation-token=");
                let e = utf8_percent_encode(t.as_str(), EncodeSet::Component);
                query.append(e.as_str());
            },
            None => {},
        }
        proof {
            assert(query@ =~= self.spec_url());
        }
        Some(query)
    }

    /// The signed `GET` request for the next page, or `None` when the
    /// listing is exhausted.
    pub fn next_request(&self) -> (r: Option<Result<SignedRequest>>)
        ensures
            self.spec_done() <==> r is None,
            r matches Some(req) ==> exists|t: u64|
                signed_now(req, Method::Get, self.spec_url(), 0, Some(Seq::empty()),
                    Seq::empty(), self.spec_creds(), self.spec_region(), t),
    {
        match self.next_url() {
            None => None,
            Some(url) => {
                let v: Vec<u8> = Vec::new();
                proof {
                    assert(v@ =~= Seq::<u8>::empty());
                }
                let r = build_signed(Method::Get, url.as_str(), v, &self.creds, self.config.region.as_str());
                proof {
                    let t = choose|t: u64| signed_now(r, Method::Get, url@, 0, Some(Seq::empty()),
                        Seq::empty(), self.creds, self.config.region@, t);
                    assert(signed_now(r, Method::Get, self.spec_url(), 0, Some(Seq::empty()),
                        Seq::empty(), self.spec_creds(), self.spec_region(), t));
                }
                Some(r)
            },
        }
    }

    /// Take in the parsed response to the request for the next page.
    ///
    /// A truncated page moves the paginator on to its continuation token;
    /// any other page exhausts the listing. The page is returned unless it
    /// is empty and the listing is exhausted.
    pub fn accept_page(&mut self, parsed: ListBucketResult) -> (page: Option<ListPage>)
        requires
            !old(self).spec_done(),
        ensures
            final(self).spec_done() == !parsed.is_truncated,
            final(self).spec_token() == if parsed.is_truncated {
                opt_view(parsed.next_continuation_token)
            } else {
                None
            },
            final(self).spec_creds() == old(self).spec_creds(),
            final(self).spec_region() == old(self).spec_region(),
            page is None <==> (parsed.contents@.len() == 0 && parsed.common_prefixes@.len() == 0
                && !parsed.is_truncated),
            page matches Some(p) ==> page_of(p, parsed),
            final(self).spec_url() == old(self).spec_url_for(final(self).spec_token()),
    {
        if parsed.is_truncated {
            self.continuation_token = parsed.next_continuation_token.clone();
        } else {
            self.done = true;
            self.continuation_token = None;
        }
        let objects = objects_of(&parsed.contents);
        let common_prefixes = prefixes_of(&parsed.common_prefixes);
        if objects.len() == 0 && common_prefixes.len() == 0 && self.done {
            return None;
        }
        Some(ListPage { objects, common_prefixes })
    }
}

/// `p` is the page for the parsed response `parsed`.
pub open spec fn page_of(p: ListPage, parsed: ListBucketResult) -> bool {
    &&& p.objects@ == parsed.contents@.map_values(|o: ListObject| object_info_of(o))
    &&& p.common_prefixes@.len() == parsed.common_prefixes@.len()
    &&& forall|i: int|
        0 <= i < p.common_prefixes@.len() ==> #[trigger] p.common_prefixes@[i]
            == parsed.common_prefixes@[i].prefix
}

fn objects_of(contents: &Vec<ListObject>) -> (r: Vec<ObjectInfo>)
    ensures
        r@ == contents@.map_values(|o: ListObject| object_info_of(o)),
{
    let mut r: Vec<ObjectInfo> = Vec::new();
    let mut i: usize = 0;
    while i < contents.len()
        invariant
            i <= contents.len(),
            r@ == contents@.take(i as int).map_values(|o: ListObject| object_info_of(o)),
        decreases contents.len() - i,
    {
        let o = &contents[i];
        r.push(ObjectInfo {
            key: o.key.clone(),
            size: o.size,
            etag: o.etag.clone(),
            last_modified: o.last_modified.clone(),
        });
        proof {
            assert(contents@.take(i + 1) =~= contents@.take(i as int).push(contents@[i as int]));
            assert(r@ =~= contents@.take(i + 1).map_values(|o: ListObject| object_info_of(o)));
        }
        i = i + 1;
    }
    proof {
        assert(contents@.take(contents.len() as int) =~= contents@);
    }
    r
}

fn prefixes_of(common: &Vec<CommonPrefix>) -> (r: Vec<String>)
    ensures
        r@.len() == common@.len(),
        forall|i: int| 0 <= i < r@.len() ==> #[trigger] r@[i] == common@[i].prefix,
{
    let mut r: Vec<String> = Vec::new();
    let mut i: usize = 0;
    while i < common.len()
        invariant
            i <= common.len(),
            r@.len() == i,
            forall|j: int| 0 <= j < i ==> #[trigger] r@[j] == common@[j].prefix,
        decreases common.len() - i,
    {
        r.push(common[i].prefix.clone());
        i = i + 1;
    }
    r
}

} // verus!
