//! Endpoints named by the environment.

use vstd::prelude::*;
use vstd::string::*;

verus! {

/// Parts of an endpoint URL that decisions read.
#[derive(Debug)]
pub struct EndpointParts {
    /// URL scheme.
    pub scheme: String,
    /// Host.
    pub host: Option<String>,
    /// User name.
    pub username: String,
    /// Whether a password is present.
    pub has_password: bool,
    /// Whether a query is present.
    pub has_query: bool,
    /// Whether a fragment is present.
    pub has_fragment: bool,
}

impl View for EndpointParts {
    type V = (Seq<char>, Option<Seq<char>>, Seq<char>, bool, bool, bool);

    open spec fn view(&self) -> Self::V {
        (
            self.scheme@,
            match self.host {
                Some(host) => Some(host@),
                None => None,
            },
            self.username@,
            self.has_password,
            self.has_query,
            self.has_fragment,
        )
    }
}

/// Scheme, host, user name, and presence of password, query and fragment of the URL that a text
/// denotes, absent for text that denotes none.
pub uninterp spec fn url_parts(text: Seq<char>) -> Option<
    (Seq<char>, Option<Seq<char>>, Seq<char>, bool, bool, bool),
>;

/// `url::Url::parse` with the getters `scheme`, `host_str`, `username`, `password`, `query` and
/// `fragment`: the parts are a function of the text alone.
#[verifier::external_body]
fn url_from_text(text: &str) -> (r: Option<EndpointParts>)
    ensures
        (match r {
            Some(parts) => Some(parts@),
            None => None,
        }) == url_parts(text@),
{
    let url = url::Url::parse(text).ok()?;
    Some(EndpointParts {
        scheme: url.scheme().to_owned(),
        host: url.host_str().map(str::to_owned),
        username: url.username().to_owned(),
        has_password: url.password().is_some(),
        has_query: url.query().is_some(),
        has_fragment: url.fragment().is_some(),
    })
}

fn is_text(value: &String, expected: &str) -> (r: bool)
    ensures
        r == (value@ == expected@),
{
    *value == expected.to_owned()
}

/// Returns whether the scheme of an endpoint is HTTP.
pub fn has_http_scheme(endpoint: &EndpointParts) -> (r: bool)
    ensures
        r == (endpoint.scheme@ == "http"@ || endpoint.scheme@ == "https"@),
{
    is_text(&endpoint.scheme, "http") || is_text(&endpoint.scheme, "https")
}

/// Returns whether the scheme of an endpoint is WebSocket.
pub fn has_websocket_scheme(endpoint: &EndpointParts) -> (r: bool)
    ensures
        r == (endpoint.scheme@ == "ws"@ || endpoint.scheme@ == "wss"@),
{
    is_text(&endpoint.scheme, "ws") || is_text(&endpoint.scheme, "wss")
}

/// Returns whether a text is an HTTP endpoint.
pub fn is_http_endpoint(raw: &str) -> (r: bool)
    ensures
        r == (url_parts(raw@) matches Some(parts) && (parts.0 == "http"@ || parts.0 == "https"@)),
{
    match url_from_text(raw) {
        Some(endpoint) => has_http_scheme(&endpoint),
        None => false,
    }
}

/// Returns whether a text is a WebSocket endpoint.
pub fn is_websocket_endpoint(raw: &str) -> (r: bool)
    ensures
        r == (url_parts(raw@) matches Some(parts) && (parts.0 == "ws"@ || parts.0 == "wss"@)),
{
    match url_from_text(raw) {
        Some(endpoint) => has_websocket_scheme(&endpoint),
        None => false,
    }
}

/// Why a remote signer endpoint is refused.
#[derive(Clone, Copy, Debug, PartialEq, Eq, Structural)]
pub enum SignerEndpointFailure {
    /// The text is no URL.
    Invalid,
    /// The URL is not plain HTTPS at the pinned host.
    NotPinned,
}

/// Whether URL parts are those of plain HTTPS at a host: no credentials, query or fragment.
pub open spec fn plain_https_at(
    parts: (Seq<char>, Option<Seq<char>>, Seq<char>, bool, bool, bool),
    host: Seq<char>,
) -> bool {
    &&& parts.0 == "https"@
    &&& parts.1 == Some(host)
    &&& parts.2.len() == 0
    &&& !parts.3
    &&& !parts.4
    &&& !parts.5
}

/// Returns whether a remote signer endpoint is plain HTTPS at the pinned host.
pub fn is_endpoint_pinned(endpoint: &EndpointParts, service_identity: &String) -> (r: bool)
    ensures
        r == plain_https_at(endpoint@, service_identity@),
{
    let host_matches = match &endpoint.host {
        Some(host) => *host == *service_identity,
        None => false,
    };
    is_text(&endpoint.scheme, "https") && host_matches && endpoint.username.as_str().unicode_len()
        == 0 && !endpoint.has_password && !endpoint.has_query && !endpoint.has_fragment
}

/// Checks that a text is plain HTTPS at the pinned remote signer host.
pub fn check_signer_endpoint(raw: &str, service_identity: &String) -> (r: Result<
    (),
    SignerEndpointFailure,
>)
    ensures
        r == match url_parts(raw@) {
            Some(parts) => if plain_https_at(parts, service_identity@) {
                Ok(())
            } else {
                Err(SignerEndpointFailure::NotPinned)
            },
            None => Err(SignerEndpointFailure::Invalid),
        },
{
    match url_from_text(raw) {
        Some(endpoint) => {
            if is_endpoint_pinned(&endpoint, service_identity) {
                Ok(())
            } else {
                Err(SignerEndpointFailure::NotPinned)
            }
        },
        None => Err(SignerEndpointFailure::Invalid),
    }
}

} // verus!
