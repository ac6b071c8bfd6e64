//! Extraction of the serving host from a request's Host header.

use vstd::prelude::*;

verus! {

/// The host part of the URL `http://<origin>`, or nothing when the
/// origin does not parse or has no host; a function of the origin
/// string alone.
pub uninterp spec fn http_host_of(origin: Seq<char>) -> Option<Seq<char>>;

/// Relies on url::Url::parse: parsing `http://<origin>` and reading the
/// host is a function of the origin string alone.
#[verifier::external_body]
fn parse_http_host(origin: &str) -> (r: Option<String>)
    ensures
        match r {
            Some(h) => http_host_of(origin@) == Some(h@),
            None => http_host_of(origin@) is None,
        },
{
    match url::Url::parse(&format!("http://{}", origin)) {
        Ok(u) => u.host_str().map(|h| h.to_string()),
        Err(_) => None,
    }
}

/// The host a request was addressed to.
pub struct OriginHost(pub String);

/// Why no host could be established for a request.
pub enum OriginHostError {
    /// The header was present but unusable.
    InternalServerError(String),
    /// No Host header was present.
    HeaderNotFound,
}

impl OriginHost {
    /// Establish the serving host from a request's Host header: a
    /// missing header and an unusable one are distinct failures, and a
    /// usable one gives exactly the host part of `http://<header>`.
    pub fn from_host_header(header: Option<&str>) -> (r: Result<OriginHost, OriginHostError>)
        ensures
            match header {
                None => r matches Err(OriginHostError::HeaderNotFound),
                Some(h) => match http_host_of(h@) {
                    Some(host) => r matches Ok(OriginHost(x)) && x@ == host,
                    None => r matches Err(OriginHostError::InternalServerError(_)),
                },
            },
    {
        match header {
            None => Err(OriginHostError::HeaderNotFound),
            Some(h) => match parse_http_host(h) {
                Some(host) => Ok(OriginHost(host)),
                None => Err(
                    OriginHostError::InternalServerError(
                        String::from_str("the Host header does not name a host"),
                    ),
                ),
            },
        }
    }
}

} // verus!
