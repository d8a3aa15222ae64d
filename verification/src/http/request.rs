//! Signed HTTP request construction.

use vstd::prelude::*;

use crate::auth::sigv4::{
    has_authority, sigv4_sign, sigv4_signature_headers, signature_header_names, unix_time_now,
    uri_has_authority, MAX_SIGNING_SECS,
};
use crate::auth::Credentials;
use crate::error::{Error, Result};
use crate::text::decimal_string;

verus! {

/// The HTTP methods the client sends.
#[derive(Debug, Clone, Copy, PartialEq, Eq, Structural)]
pub enum Method {
    /// `GET`
    Get,
    /// `PUT`
    Put,
    /// `POST`
    Post,
    /// `DELETE`
    Delete,
    /// `HEAD`
    Head,
}

impl Method {
    /// The method's name on the wire.
    pub open spec fn spec_str(self) -> Seq<char> {
        match self {
            Method::Get => "GET"@,
            Method::Put => "PUT"@,
            Method::Post => "POST"@,
            Method::Delete => "DELETE"@,
            Method::Head => "HEAD"@,
        }
    }

    /// The method's name on the wire.
    pub fn as_str(&self) -> (s: &'static str)
        ensures
            s@ == self.spec_str(),
    {
        match self {
            Method::Get => "GET",
            Method::Put => "PUT",
            Method::Post => "POST",
            Method::Delete => "DELETE",
            Method::Head => "HEAD",
        }
    }
}

/// A request ready to be sent: the headers include the `SigV4` signature.
#[derive(Debug, Clone)]
pub struct SignedRequest {
    /// Request method.
    pub method: Method,
    /// Request URI, in the normal form of `http::Uri`.
    pub uri: String,
    /// Header names and values, in the order they are to be set.
    pub headers: Vec<(String, String)>,
    /// Request body.
    pub body: Vec<u8>,
}

/// The text of `s` parsed as an `http::Uri` and rendered again; `None`
/// where `s` is not a valid URI.
pub uninterp spec fn uri_normal_form(s: Seq<char>) -> Option<Seq<char>>;

/// Parses `s` with `http::Uri`'s `FromStr` and renders it back with
/// `Display`: the contract claims that the outcome is the function
/// `uri_normal_form` of `s`. The error text is not stated.
#[verifier::external_body]
pub(crate) fn parse_uri(s: &str) -> (r: core::result::Result<String, String>)
    ensures
        match r {
            Ok(u) => uri_normal_form(s@) == Some(u@),
            Err(_) => uri_normal_form(s@) is None,
        },
{
    s.parse::<http::Uri>().map(|u| u.to_string()).map_err(|e| e.to_string())
}

/// The request `build_signed_at` produces, if signing succeeds: the
/// normalised URI, the content-length header followed by the signature
/// headers, and the body.
pub open spec fn signed_request_spec(
    method: Method,
    uri: Seq<char>,
    content_length: nat,
    payload: Option<Seq<u8>>,
    creds: Credentials,
    region: Seq<char>,
    unix_secs: u64,
) -> Option<(Seq<char>, Seq<(Seq<char>, Seq<char>)>)> {
    match uri_normal_form(uri) {
        None => None,
        Some(u) => {
            let base = seq![("content-length"@, crate::text::decimal(content_length))];
            match sigv4_signature_headers(method.spec_str(), u, base, payload, creds.access_key@,
                creds.secret_key@, region, unix_secs) {
                None => None,
                Some(sig) => Some((u, base + sig)),
            }
        },
    }
}

/// The message of the `Uri` error for a URI without an authority.
pub open spec fn no_authority_message() -> Seq<char> {
    "uri has no authority"@
}

/// What a signing request returns for the given inputs: `Uri` when the URI
/// does not parse or names no host, `Auth` when signing fails, else the
/// signed request, whose signature headers are `x-amz-date`,
/// `authorization` and `x-amz-content-sha256`.
pub open spec fn signed_outcome(
    r: Result<SignedRequest>,
    method: Method,
    uri: Seq<char>,
    content_length: nat,
    payload: Option<Seq<u8>>,
    body: Seq<u8>,
    creds: Credentials,
    region: Seq<char>,
    unix_secs: u64,
) -> bool {
    match uri_normal_form(uri) {
        None => r matches Err(Error::Uri(_)),
        Some(u) => if !uri_has_authority(u) {
            r matches Err(Error::Uri(m)) && m@ == no_authority_message()
        } else {
            match signed_request_spec(method, uri, content_length, payload, creds, region, unix_secs) {
                None => r matches Err(Error::Auth(_)),
                Some((u, hs)) => r matches Ok(req) && req.method == method && req.uri@ == u
                    && req.headers.deep_view() == hs && req.body@ == body
                    && signature_header_names(hs.drop_first())
                    && (payload is None ==> hs.drop_first()[2].1 == "UNSIGNED-PAYLOAD"@),
            }
        },
    }
}

/// The message of the `Auth` error for a clock that reads past the last
/// second the signer can sign at.
pub open spec fn clock_message() -> Seq<char> {
    "clock reads past the signable range"@
}

/// What a signing request at the current time returns when the clock reads
/// `unix_secs`: past the signable range, an `Auth` error; else the outcome
/// of signing at that time.
pub open spec fn signed_now(
    r: Result<SignedRequest>,
    method: Method,
    uri: Seq<char>,
    content_length: nat,
    payload: Option<Seq<u8>>,
    body: Seq<u8>,
    creds: Credentials,
    region: Seq<char>,
    unix_secs: u64,
) -> bool {
    if unix_secs > MAX_SIGNING_SECS {
        r matches Err(Error::Auth(m)) && m@ == clock_message()
    } else {
        signed_outcome(r, method, uri, content_length, payload, body, creds, region, unix_secs)
    }
}

fn sign_into(
    method: Method,
    uri: &str,
    content_length: u64,
    signed_payload: bool,
    body: Vec<u8>,
    creds: &Credentials,
    region: &str,
    unix_secs: u64,
) -> (r: Result<SignedRequest>)
    requires
        unix_secs <= MAX_SIGNING_SECS,
    ensures
        signed_outcome(r, method, uri@, content_length as nat, if signed_payload {
            Some(body@)
        } else {
            None
        }, body@, *creds, region@, unix_secs),
{
    let normal = match parse_uri(uri) {
        Ok(u) => u,
        Err(msg) => return Err(Error::Uri(msg)),
    };
    if !has_authority(normal.as_str()) {
        let r = Err(Error::Uri("uri has no authority".to_owned()));
        proof {
            reveal_strlit("uri has no authority");
        }
        return r;
    }
    let length = decimal_string(content_length);
    let pairs = [("content-length", length.as_str())];
    let pair_slice = pairs.as_slice();
    let payload = if signed_payload { Some(body.as_slice()) } else { None };
    proof {
        reveal_strlit("content-length");
        vstd::array::axiom_spec_array_as_slice(&pairs);
        assert(pair_slice@ == pairs@);
        assert(pair_slice.deep_view() =~= seq![("content-length"@, crate::text::decimal(content_length as nat))]);
        assert(crate::auth::sigv4::payload_view(payload) == if signed_payload {
            Some(body@)
        } else {
            None::<Seq<u8>>
        });
    }
    let signature = sigv4_sign(method.as_str(), normal.as_str(), pair_slice, payload,
        creds.access_key.as_str(), creds.secret_key.as_str(), region, unix_secs);
    let mut headers: Vec<(String, String)> = Vec::new();
    headers.push(("content-length".to_owned(), length));
    proof {
        assert(headers.deep_view() =~= seq![("content-length"@, crate::text::decimal(content_length as nat))]);
    }
    match signature {
        None => Err(Error::Auth("request signing failed".to_owned())),
        Some(extra) => {
            let ghost base = headers.deep_view();
            let mut all = headers;
            let mut i: usize = 0;
            while i < extra.len()
                invariant
                    i <= extra.len(),
                    all.deep_view() == base + extra.deep_view().take(i as int),
                decreases extra.len() - i,
            {
                let ghost prev = all.deep_view();
                all.push((extra[i].0.clone(), extra[i].1.clone()));
                proof {
                    assert(all@[all.len() - 1] == extra@[i as int]);
                    assert(all.deep_view() =~= prev.push(extra.deep_view()[i as int]));
                    assert(extra.deep_view().take(i + 1) =~= extra.deep_view().take(i as int).push(
                        extra.deep_view()[i as int],
                    ));
                    assert(all.deep_view() =~= base + extra.deep_view().take(i + 1));
                }
                i = i + 1;
            }
            proof {
                assert(extra.deep_view().take(extra.len() as int) =~= extra.deep_view());
                assert(all.deep_view().drop_first() =~= extra.deep_view());
            }
            Ok(SignedRequest { method, uri: normal, headers: all, body })
        },
    }
}

/// Build and sign an HTTP request for S3 at time `unix_secs` (seconds since
/// the epoch); the payload is the body, and a `content-length` header gives
/// its length.
pub fn build_signed_at(
    method: Method,
    uri: &str,
    body: Vec<u8>,
    creds: &Credentials,
    region: &str,
    unix_secs: u64,
) -> (r: Result<SignedRequest>)
    requires
        unix_secs <= MAX_SIGNING_SECS,
    ensures
        signed_outcome(r, method, uri@, body@.len(), Some(body@), body@, *creds, region@,
            unix_secs),
{
    let content_length = body.len() as u64;
    sign_into(method, uri, content_length, true, body, creds, region, unix_secs)
}

/// The error for a clock past the signable range.
pub(crate) fn clock_error() -> (r: Result<SignedRequest>)
    ensures
        r matches Err(Error::Auth(m)) && m@ == clock_message(),
{
    let r = Err(Error::Auth("clock reads past the signable range".to_owned()));
    proof {
        reveal_strlit("clock reads past the signable range");
    }
    r
}

/// Build and sign an HTTP request for S3 at the current time (an `Auth`
/// error if the clock reads past the last second the signer can sign at).
pub fn build_signed(method: Method, uri: &str, body: Vec<u8>, creds: &Credentials, region: &str) -> (r:
    Result<SignedRequest>)
    ensures
        exists|t: u64|
            signed_now(r, method, uri@, body@.len(), Some(body@), body@, *creds, region@, t),
{
    let now = unix_time_now();
    let ghost b = body@;
    if now > MAX_SIGNING_SECS {
        let r = clock_error();
        assert(signed_now(r, method, uri@, b.len(), Some(b), b, *creds, region@, now));
        return r;
    }
    let r = build_signed_at(method, uri, body, creds, region, now);
    assert(signed_now(r, method, uri@, b.len(), Some(b), b, *creds, region@, now));
    r
}

/// Build and sign an HTTP request with an `UNSIGNED-PAYLOAD` signature at
/// time `unix_secs`: the body is empty and the caller streams
/// `content_length` bytes after signing.
pub fn build_signed_unsigned_payload_at(
    method: Method,
    uri: &str,
    content_length: u64,
    creds: &Credentials,
    region: &str,
    unix_secs: u64,
) -> (r: Result<SignedRequest>)
    requires
        unix_secs <= MAX_SIGNING_SECS,
    ensures
        signed_outcome(r, method, uri@, content_length as nat, None, Seq::empty(), *creds,
            region@, unix_secs),
{
    sign_into(method, uri, content_length, false, Vec::new(), creds, region, unix_secs)
}

/// Build and sign an `UNSIGNED-PAYLOAD` request at the current time (an
/// `Auth` error if the clock reads past the signable range).
pub fn build_signed_unsigned_payload(
    method: Method,
    uri: &str,
    content_length: u64,
    creds: &Credentials,
    region: &str,
) -> (r: Result<SignedRequest>)
    ensures
        exists|t: u64|
            signed_now(r, method, uri@, content_length as nat, None, Seq::empty(), *creds,
                region@, t),
{
    let now = unix_time_now();
    if now > MAX_SIGNING_SECS {
        let r = clock_error();
        assert(signed_now(r, method, uri@, content_length as nat, None, Seq::empty(), *creds,
            region@, now));
        return r;
    }
    let r = build_signed_unsigned_payload_at(method, uri, content_length, creds, region, now);
    assert(signed_now(r, method, uri@, content_length as nat, None, Seq::empty(), *creds, region@,
        now));
    r
}

} // verus!
