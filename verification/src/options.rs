//! Client options as front ends (command line, language bindings) give them.

use vstd::prelude::*;

use crate::auth::CredentialSource;
use crate::config::{aws_endpoint, Config};
use crate::text::concat2;

verus! {

/// The credential source for optional explicit keys: both keys given make
/// static credentials; otherwise the environment is used.
pub open spec fn credential_source_spec(access_key: Option<String>, secret_key: Option<String>) -> CredentialSource {
    match (access_key, secret_key) {
        (Some(ak), Some(sk)) => CredentialSource::Static { access_key: ak, secret_key: sk },
        _ => CredentialSource::Env,
    }
}

/// Build a [`Config`] from the global options: static credentials when both
/// keys are given (else the environment), and the custom endpoint when one
/// is given (else the AWS endpoint of the region).
pub fn build_config(
    region: &str,
    endpoint: Option<String>,
    access_key: Option<String>,
    secret_key: Option<String>,
) -> (c: Config)
    ensures
        c.wf(),
        c.region@ == region@,
        c.credentials == credential_source_spec(access_key, secret_key),
        match endpoint {
            Some(ep) => c.endpoint matches Some(e) && e@ == ep@ && c.spec_endpoint_url() == ep@,
            None => c.endpoint is None && c.spec_endpoint_url() == aws_endpoint(region@),
        },
{
    let creds = match (access_key, secret_key) {
        (Some(ak), Some(sk)) => CredentialSource::Static { access_key: ak, secret_key: sk },
        _ => CredentialSource::Env,
    };
    match endpoint {
        Some(ep) => Config::with_endpoint(region, creds, ep),
        None => Config::new(region, creds),
    }
}

/// A parallelism value given as `u32`, which must not be zero.
pub fn nonzero(name: &str, v: u32) -> (r: Result<usize, String>)
    ensures
        v == 0 ==> (r matches Err(m) && m@ == name@ + " must be > 0"@),
        v != 0 ==> r == Ok::<usize, String>(v as usize),
{
    if v == 0 {
        return Err(concat2(name, " must be > 0"));
    }
    Ok(v as usize)
}

} // verus!
