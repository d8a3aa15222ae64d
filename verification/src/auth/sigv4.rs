//! `SigV4` request signing using the `aws-sigv4` crate.

use std::time::{Duration, SystemTime, UNIX_EPOCH};

use aws_credential_types::Credentials as AwsCreds;
use aws_sigv4::http_request::{
    sign, PayloadChecksumKind, SignableBody, SignableRequest, SigningSettings,
};
use aws_sigv4::sign::v4::SigningParams;
use vstd::prelude::*;

verus! {

/// The headers that `SigV4` signing adds to a request (`x-amz-date`,
/// `x-amz-content-sha256`, `authorization`), as `aws_sigv4::http_request::sign`
/// computes them for the service `s3` with the payload checksum sent in the
/// `x-amz-content-sha256` header and the signature in headers (the default
/// location); `None` where signing fails. `payload` is `None` for an
/// `UNSIGNED-PAYLOAD` request.
pub uninterp spec fn sigv4_signature_headers(
    method: Seq<char>,
    uri: Seq<char>,
    headers: Seq<(Seq<char>, Seq<char>)>,
    payload: Option<Seq<u8>>,
    access_key: Seq<char>,
    secret_key: Seq<char>,
    region: Seq<char>,
    unix_secs: u64,
) -> Option<Seq<(Seq<char>, Seq<char>)>>;

/// The payload of a request as bytes, if it is signed.
pub open spec fn payload_view(payload: Option<&[u8]>) -> Option<Seq<u8>> {
    match payload {
        Some(p) => Some(p@),
        None => None,
    }
}

/// The last second the signer can sign at: 9999-12-31T23:59:59Z. The
/// signer writes the signing time as a four-digit year.
pub const MAX_SIGNING_SECS: u64 = 253_402_300_799;

/// Whether `uri` parses as an `http::Uri` that has an authority (a host):
/// the signer takes the `host` header from it.
pub uninterp spec fn uri_has_authority(uri: Seq<char>) -> bool;

/// Parses `uri` with `http::Uri`'s `FromStr` and tells whether the result
/// has an authority (`Uri::authority` is `Some`): the contract claims that
/// the answer is the function `uri_has_authority` of `uri`.
#[verifier::external_body]
pub(crate) fn has_authority(uri: &str) -> (b: bool)
    ensures
        b == uri_has_authority(uri@),
{
    uri.parse::<http::Uri>().map_or(false, |u| u.authority().is_some())
}

/// Calls `aws_sigv4::http_request::sign` on the request (`method`, `uri`,
/// `headers`, payload), with the credentials (no session token), region,
/// service `s3`, the payload checksum sent in `x-amz-content-sha256` and the
/// time `unix_secs` seconds after the epoch, and returns the headers of the
/// signing instructions, or `None` where building the signing parameters,
/// the signable request or the signature fails.
///
/// The contract claims that the outcome is the function
/// `sigv4_signature_headers` of these arguments (signing is HMAC-SHA256 over
/// the canonical request, a deterministic computation), and that the
/// headers are, in this order, `x-amz-date`, `authorization` and
/// `x-amz-content-sha256`, the last being `UNSIGNED-PAYLOAD` when there is
/// no payload. The signer panics on a URI without an authority (it takes
/// the `host` header from it) and on times whose year it cannot write in
/// four digits; `requires` leaves both out. The reason for a failure is not
/// kept.
#[verifier::external_body]
pub(crate) fn sigv4_sign(
    method: &str,
    uri: &str,
    headers: &[(&str, &str)],
    payload: Option<&[u8]>,
    access_key: &str,
    secret_key: &str,
    region: &str,
    unix_secs: u64,
) -> (r: Option<Vec<(String, String)>>)
    requires
        uri_has_authority(uri@),
        unix_secs <= MAX_SIGNING_SECS,
    ensures
        match r {
            Some(v) => sigv4_signature_headers(method@, uri@, headers.deep_view(), payload_view(payload),
                access_key@, secret_key@, region@, unix_secs) == Some(v.deep_view()),
            None => sigv4_signature_headers(method@, uri@, headers.deep_view(), payload_view(payload),
                access_key@, secret_key@, region@, unix_secs) is None,
        },
        r matches Some(v) ==> signature_header_names(v.deep_view()),
        payload is None ==> (r matches Some(v) ==> v.deep_view()[2].1 == "UNSIGNED-PAYLOAD"@),
{
    let id = AwsCreds::new(access_key, secret_key, None, None, "s3z").into();
    let mut set = SigningSettings::default();
    set.payload_checksum_kind = PayloadChecksumKind::XAmzSha256;
    let params = SigningParams::builder().identity(&id).region(region).name("s3")
        .time(UNIX_EPOCH + Duration::from_secs(unix_secs)).settings(set).build().ok()?;
    let body = payload.map_or(SignableBody::UnsignedPayload, SignableBody::Bytes);
    let req = SignableRequest::new(method, uri, headers.iter().copied(), body).ok()?;
    let (out, _) = sign(req, &params.into()).ok()?.into_parts();
    Some(out.headers().map(|(k, v)| (k.to_owned(), v.to_owned())).collect())
}

/// The signature headers: `x-amz-date`, `authorization` and
/// `x-amz-content-sha256`, in this order.
pub open spec fn signature_header_names(v: Seq<(Seq<char>, Seq<char>)>) -> bool {
    &&& v.len() == 3
    &&& v[0].0 == "x-amz-date"@
    &&& v[1].0 == "authorization"@
    &&& v[2].0 == "x-amz-content-sha256"@
}

/// Seconds since the Unix epoch now, by `SystemTime::now`; 0 if the clock
/// reads before the epoch. Nothing is stated of the value: it is the time.
#[verifier::external_body]
pub(crate) fn unix_time_now() -> u64 {
    SystemTime::now().duration_since(UNIX_EPOCH).map(|d| d.as_secs()).unwrap_or(0)
}

} // verus!
