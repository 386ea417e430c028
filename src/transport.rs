//! The request that one generation sends, and the route it takes.
use vstd::prelude::*;
use crate::error::GenerateError;

verus! {

#[verifier::external_type_specification]
#[verifier::external_body]
pub struct ExUri(hyper::Uri);

#[verifier::external_type_specification]
#[verifier::external_body]
pub struct ExInvalidUri(hyper::http::uri::InvalidUri);

/// Whether hyper's URI parser accepts a text.
pub uninterp spec fn uri_accepts(s: Seq<char>) -> bool;

/// Relies on hyper's `Uri` parser (`FromStr`): it accepts or refuses a text
/// by its characters alone.
#[verifier::external_body]
fn parse_uri(s: &str) -> (r: Result<hyper::Uri, hyper::http::uri::InvalidUri>)
    ensures
        r is Ok <==> uri_accepts(s@),
{
    s.parse::<hyper::Uri>()
}

/// How the request reaches the service.
pub enum Route {
    /// A direct TLS connection.
    Direct,
    /// Every scheme through the HTTP proxy at `url`; `uri` is its parsed form.
    Proxied { url: String, uri: hyper::Uri },
}

/// The proxy setting can be used: absent, or an address that parses.
pub open spec fn proxy_usable(proxy: Option<String>) -> bool {
    match proxy {
        Some(p) => uri_accepts(p@),
        None => true,
    }
}

/// `route` is the one that the proxy setting calls for.
pub open spec fn route_for(route: Route, proxy: Option<String>) -> bool {
    match proxy {
        Some(p) => match route {
            Route::Proxied { url, .. } => url@ == p@,
            Route::Direct => false,
        },
        None => route is Direct,
    }
}

/// Chooses the route from the proxy setting: through the proxy when one is
/// given, directly otherwise. A proxy address that does not parse is a
/// configuration error.
pub fn select_route(proxy: Option<String>) -> (r: Result<Route, GenerateError>)
    ensures
        proxy_usable(proxy) <==> r is Ok,
        r matches Ok(route) ==> route_for(route, proxy),
        r matches Err(e) ==> e is Configuration,
{
    match proxy {
        None => Ok(Route::Direct),
        Some(p) => match parse_uri(p.as_str()) {
            Ok(uri) => Ok(Route::Proxied { url: p, uri }),
            Err(_) => Err(
                GenerateError::Configuration(
                    String::from_str("the proxy address does not parse: ").concat(p.as_str()),
                ),
            ),
        },
    }
}

/// One authenticated POST of a JSON body.
pub struct HttpRequest {
    /// The endpoint, as text.
    pub url: String,
    /// The endpoint, parsed.
    pub uri: hyper::Uri,
    /// The `Content-Type` header.
    pub content_type: String,
    /// The `Authorization` header.
    pub authorization: String,
    /// The JSON body.
    pub body: String,
    /// How the request travels.
    pub route: Route,
}

/// The `Authorization` header for a credential.
pub open spec fn bearer(key: Seq<char>) -> Seq<char> {
    "Bearer "@ + key
}

/// `q` is the request for `url`, credential `key`, proxy setting `proxy`
/// and body `body`.
pub open spec fn request_for(
    q: HttpRequest,
    url: Seq<char>,
    key: Seq<char>,
    proxy: Option<String>,
    body: Seq<char>,
) -> bool {
    &&& q.url@ == url
    &&& q.content_type@ == "application/json"@
    &&& q.authorization@ == bearer(key)
    &&& q.body@ == body
    &&& route_for(q.route, proxy)
}

/// Builds the request: fails with a configuration error, before anything
/// is sent, when the credential is missing or an address does not parse.
pub fn build_request(url: &str, api_key: Option<String>, proxy: Option<String>, body: String) -> (r:
    Result<HttpRequest, GenerateError>)
    ensures
        r is Ok <==> api_key is Some && uri_accepts(url@) && proxy_usable(proxy),
        r matches Ok(q) ==> request_for(q, url@, api_key->Some_0@, proxy, body@),
        r matches Err(e) ==> e is Configuration,
{
    let key = match api_key {
        Some(k) => k,
        None => {
            return Err(
                GenerateError::Configuration(String::from_str("the API credential is not set")),
            );
        },
    };
    let uri = match parse_uri(url) {
        Ok(u) => u,
        Err(_) => {
            return Err(
                GenerateError::Configuration(
                    String::from_str("the endpoint does not parse: ").concat(url),
                ),
            );
        },
    };
    let route = match select_route(proxy) {
        Ok(route) => route,
        Err(e) => {
            return Err(e);
        },
    };
    let authorization = String::from_str("Bearer ").concat(key.as_str());
    Ok(
        HttpRequest {
            url: String::from_str(url),
            uri,
            content_type: String::from_str("application/json"),
            authorization,
            body,
            route,
        },
    )
}

} // verus!
