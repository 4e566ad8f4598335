//! Worker addresses and the client endpoints built from them.
//!
//! A worker is addressed as `host:port`. The proxy talks to it over plain
//! HTTP/2, so the address is usable exactly when `http://` followed by the
//! address is accepted as a URI by the transport library.

use crate::error::ProxyError;
use std::time::Duration;
use vstd::prelude::*;
use vstd::string::StringExecFns;

verus! {

/// The transport library's description of a connection that can be opened.
#[verifier::external_type_specification]
#[verifier::external_body]
pub struct ExEndpoint(tonic::transport::Endpoint);

/// The URI parser's reason for turning a text away.
#[verifier::external_type_specification]
#[verifier::external_body]
pub struct ExInvalidUri(tonic::codegen::http::uri::InvalidUri);

/// What the transport library's URI parser makes of the text `uri`: nothing
/// if it turns the text away, else the URI as the library prints it. The
/// printed form may differ from the text: an empty path is printed as `/`,
/// and a fragment is left out.
pub uninterp spec fn parsed_uri(uri: Seq<char>) -> Option<Seq<char>>;

/// The URI that an endpoint connects to, as the library prints it.
pub uninterp spec fn endpoint_uri(endpoint: tonic::transport::Endpoint) -> Seq<char>;

/// The bound that an endpoint puts on establishing a connection, if any.
pub uninterp spec fn endpoint_connect_bound(endpoint: tonic::transport::Endpoint) -> Option<
    Duration,
>;

/// The bound that an endpoint puts on each request, if any.
pub uninterp spec fn endpoint_request_bound(endpoint: tonic::transport::Endpoint) -> Option<
    Duration,
>;

/// Whether the transport library's URI parser accepts the text `uri`.
pub open spec fn uri_accepted(uri: Seq<char>) -> bool {
    parsed_uri(uri) is Some
}

/// The URI under which the worker at `address` is reached.
pub open spec fn worker_uri(address: Seq<char>) -> Seq<char> {
    "http://"@ + address
}

/// Whether `address` can be turned into an endpoint.
pub open spec fn usable_address(address: Seq<char>) -> bool {
    uri_accepted(worker_uri(address))
}

/// Calls `tonic::transport::Channel::from_shared`, which parses the text as a
/// URI and, if the parser accepts it, wraps the URI in an endpoint with
/// default settings. Trusted: the call succeeds exactly on the texts that the
/// parser accepts; the endpoint then holds the parsed URI and no bound on
/// connecting or on a request.
#[verifier::external_body]
fn endpoint_from_shared(uri: String) -> (r: Result<
    tonic::transport::Endpoint,
    tonic::codegen::http::uri::InvalidUri,
>)
    ensures
        (r is Ok) == (parsed_uri(uri@) is Some),
        r is Ok ==> Some(endpoint_uri(r->Ok_0)) == parsed_uri(uri@),
        r is Ok ==> endpoint_connect_bound(r->Ok_0) is None,
        r is Ok ==> endpoint_request_bound(r->Ok_0) is None,
{
    tonic::transport::Channel::from_shared(uri)
}

/// Calls `tonic::transport::Endpoint::connect_timeout`. Trusted: the result
/// is the endpoint with the bound on connection establishment set to
/// `bound`, and with its URI and its bound on requests as before.
#[verifier::external_body]
fn endpoint_connect_timeout(endpoint: tonic::transport::Endpoint, bound: Duration) -> (r:
    tonic::transport::Endpoint)
    ensures
        endpoint_uri(r) == endpoint_uri(endpoint),
        endpoint_connect_bound(r) == Some(bound),
        endpoint_request_bound(r) == endpoint_request_bound(endpoint),
{
    endpoint.connect_timeout(bound)
}

/// Calls `tonic::transport::Endpoint::timeout`. Trusted: the result is the
/// endpoint with the bound on each request set to `bound`, and with its URI
/// and its bound on connection establishment as before.
#[verifier::external_body]
fn endpoint_timeout(endpoint: tonic::transport::Endpoint, bound: Duration) -> (r:
    tonic::transport::Endpoint)
    ensures
        endpoint_uri(r) == endpoint_uri(endpoint),
        endpoint_request_bound(r) == Some(bound),
        endpoint_connect_bound(r) == endpoint_connect_bound(endpoint),
{
    endpoint.timeout(bound)
}

/// The text of the URI under which the worker at `address` is reached.
pub fn worker_uri_text(address: &String) -> (uri: String)
    ensures
        uri@ == worker_uri(address@),
{
    let mut uri = String::from_str("http://");
    uri.append(address.as_str());
    uri
}

/// Decides whether `address` can be turned into an endpoint.
pub fn address_is_usable(address: &String) -> (usable: bool)
    ensures
        usable == usable_address(address@),
{
    let uri = worker_uri_text(address);
    match endpoint_from_shared(uri) {
        Ok(_) => true,
        Err(_) => false,
    }
}

/// Turns the parser's answer for the worker at `address` into the proxy's
/// own terms: an accepted URI gives its endpoint, a rejected one gives
/// `InvalidAddress` naming the address.
pub fn classify_endpoint(
    address: String,
    parsed: Result<tonic::transport::Endpoint, tonic::codegen::http::uri::InvalidUri>,
) -> (r: Result<tonic::transport::Endpoint, ProxyError>)
    ensures
        parsed is Ok ==> r == Ok::<tonic::transport::Endpoint, ProxyError>(parsed->Ok_0),
        parsed is Err ==> r == Err::<tonic::transport::Endpoint, ProxyError>(
            ProxyError::InvalidAddress(address),
        ),
{
    match parsed {
        Ok(endpoint) => Ok(endpoint),
        Err(_) => Err(ProxyError::InvalidAddress(address)),
    }
}

/// Prepares the health-check connection to the worker at `address`: the
/// endpoint for `http://` followed by the address, with `connection_timeout`
/// as the bound on establishing the connection and `total_timeout` as the
/// bound on each request. Opening the connection is left to the caller.
///
/// Fails with `InvalidAddress` exactly when the address is not usable.
pub fn create_health_check_client(
    address: String,
    connection_timeout: Duration,
    total_timeout: Duration,
) -> (r: Result<tonic::transport::Endpoint, ProxyError>)
    ensures
        r is Ok <==> usable_address(address@),
        r is Ok ==> {
            &&& Some(endpoint_uri(r->Ok_0)) == parsed_uri(worker_uri(address@))
            &&& endpoint_connect_bound(r->Ok_0) == Some(connection_timeout)
            &&& endpoint_request_bound(r->Ok_0) == Some(total_timeout)
        },
        r is Err ==> r == Err::<tonic::transport::Endpoint, ProxyError>(
            ProxyError::InvalidAddress(address),
        ),
{
    let uri = worker_uri_text(&address);
    match classify_endpoint(address, endpoint_from_shared(uri)) {
        Ok(endpoint) => {
            let endpoint = endpoint_connect_timeout(endpoint, connection_timeout);
            Ok(endpoint_timeout(endpoint, total_timeout))
        },
        Err(e) => Err(e),
    }
}

} // verus!
