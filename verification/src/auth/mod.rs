//! Credential resolution and request signing.

pub mod sigv4;

use vstd::prelude::*;

use crate::error::{missing_env, Error, Result};

verus! {

/// How to obtain AWS credentials.
#[derive(Debug, Clone)]
#[non_exhaustive]
pub enum CredentialSource {
    /// Read from `AWS_ACCESS_KEY_ID` / `AWS_SECRET_ACCESS_KEY` env vars.
    Env,
    /// Explicit access key / secret key pair.
    Static {
        /// AWS access key ID.
        access_key: String,
        /// AWS secret access key.
        secret_key: String,
    },
}

/// Resolved credentials ready for signing.
#[derive(Debug, Clone)]
#[non_exhaustive]
pub struct Credentials {
    /// AWS access key ID.
    pub access_key: String,
    /// AWS secret access key.
    pub secret_key: String,
}

/// Resolve a [`CredentialSource`] into concrete [`Credentials`].
///
/// `env_access_key` and `env_secret_key` are the values of
/// `AWS_ACCESS_KEY_ID` and `AWS_SECRET_ACCESS_KEY` (`None` when unset or
/// not valid Unicode); they are read only for [`CredentialSource::Env`].
/// A missing access key is reported before a missing secret key.
pub fn resolve(
    source: &CredentialSource,
    env_access_key: Option<String>,
    env_secret_key: Option<String>,
) -> (r: Result<Credentials>)
    ensures
        match *source {
            CredentialSource::Static { access_key, secret_key } => r matches Ok(c)
                && c.access_key@ == access_key@ && c.secret_key@ == secret_key@,
            CredentialSource::Env => match (env_access_key, env_secret_key) {
                (None, _) => r matches Err(Error::Auth(m))
                    && m@ == "AWS_ACCESS_KEY_ID not set"@,
                (Some(_), None) => r matches Err(Error::Auth(m))
                    && m@ == "AWS_SECRET_ACCESS_KEY not set"@,
                (Some(a), Some(s)) => r matches Ok(c)
                    && c.access_key@ == a@ && c.secret_key@ == s@,
            },
        },
{
    match source {
        CredentialSource::Env => {
            let access_key = match env_access_key {
                Some(a) => a,
                None => {
                    let e = missing_env("AWS_ACCESS_KEY_ID");
                    proof { reveal_strlit("AWS_ACCESS_KEY_ID"); reveal_strlit(" not set"); reveal_strlit("AWS_ACCESS_KEY_ID not set"); }
                    return Err(e);
                },
            };
            let secret_key = match env_secret_key {
                Some(s) => s,
                None => {
                    let e = missing_env("AWS_SECRET_ACCESS_KEY");
                    proof { reveal_strlit("AWS_SECRET_ACCESS_KEY"); reveal_strlit(" not set"); reveal_strlit("AWS_SECRET_ACCESS_KEY not set"); }
                    return Err(e);
                },
            };
            Ok(Credentials { access_key, secret_key })
        },
        CredentialSource::Static { access_key, secret_key } => {
            Ok(Credentials { access_key: access_key.clone(), secret_key: secret_key.clone() })
        },
    }
}

} // verus!
