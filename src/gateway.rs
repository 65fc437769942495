use vstd::prelude::*;

use crate::torrent::{MyTorrent, RemoteTorrent, normalize_all, normalized_all};

verus! {

#[verifier::external_type_specification]
#[verifier::external_body]
pub struct ExUrl(url::Url);

#[verifier::external_type_specification]
#[verifier::external_body]
pub struct ExParseError(url::ParseError);

/// Whether `url::Url::parse` accepts a string with these characters.
pub uninterp spec fn url_accepts(s: Seq<char>) -> bool;

/// Relies on `url::Url::parse`: whether it accepts its input depends on the input alone.
#[verifier::external_body]
fn parse_url(s: &str) -> (r: Result<url::Url, url::ParseError>)
    ensures
        r is Ok <==> url_accepts(s@),
{
    url::Url::parse(s)
}

/// Why a fetch of the torrent list failed.
#[derive(Clone, Debug)]
pub enum FetchError {
    /// The daemon could not be reached, or the connection broke.
    Transport(String),
    /// The daemon answered with an error; the text is its result string.
    Protocol(String),
    /// The daemon's answer did not have the expected shape.
    Decode(String),
}

/// The endpoint address given to the gateway is not a URL.
#[derive(Debug)]
pub enum EndpointError {
    Invalid(url::ParseError),
}

/// The daemon's answer to a request for the id and name of every torrent: its result
/// string and the records it returned.
pub struct RpcReply {
    pub result: String,
    pub torrents: Vec<RemoteTorrent>,
}

/// What a daemon's answer means to the fetch: its records normalized where the result
/// string is `success`, otherwise a protocol error that carries that string.
pub open spec fn reply_outcome(reply: RpcReply) -> Result<Seq<MyTorrent>, FetchError> {
    if reply.result@ == "success"@ {
        Ok(normalized_all(reply.torrents@))
    } else {
        Err(FetchError::Protocol(reply.result))
    }
}

/// The view models of the daemon's answer, or the error that the daemon reported.
pub fn torrents_from_reply(reply: RpcReply) -> (r: Result<Vec<MyTorrent>, FetchError>)
    ensures
        match (r, reply_outcome(reply)) {
            (Ok(v), Ok(s)) => v@ == s,
            (Err(e), Err(f)) => e == f,
            _ => false,
        },
{
    let success = String::from_str("success");
    if reply.result == success {
        Ok(normalize_all(&reply.torrents))
    } else {
        Err(FetchError::Protocol(reply.result))
    }
}

/// The report of a connectivity probe of the daemon.
pub fn port_test_report(ok: bool) -> (r: String)
    ensures
        ok ==> r@ == "Response ok? true"@,
        !ok ==> r@ == "Response ok? false"@,
{
    if ok {
        String::from_str("Response ok? true")
    } else {
        String::from_str("Response ok? false")
    }
}

/// The endpoint of the daemon's RPC service, where the parse of its address succeeded.
pub fn endpoint_from_parse(parsed: Result<url::Url, url::ParseError>) -> (r: Result<url::Url, EndpointError>)
    ensures
        r is Ok <==> parsed is Ok,
{
    match parsed {
        Ok(u) => Ok(u),
        Err(e) => Err(EndpointError::Invalid(e)),
    }
}

/// The endpoint of the daemon's RPC service at `address`, which must be a URL.
pub fn rpc_endpoint(address: &str) -> (r: Result<url::Url, EndpointError>)
    ensures
        r is Ok <==> url_accepts(address@),
{
    endpoint_from_parse(parse_url(address))
}

} // verus!
