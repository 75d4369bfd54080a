//! How an oblivious query travels: the request that carries it, directly to
//! the target or through a relay, and how the answer's status is judged.
use crate::error::ClientError;
use crate::protocol::{clone_url, odoh_media_type};
use url::Url;
use vstd::prelude::*;
use vstd::string::StringExecFns;

verus! {

/// Path of the target's query endpoint.
pub const QUERY_PATH: &'static str = "/dns-query";

/// Path under which a target publishes its configuration set.
pub const WELL_KNOWN: &'static str = "/.well-known/odohconfigs";

/// Caching directive: every answer is bound to a one-time secret.
pub const NO_CACHE: &'static str = "no-cache, no-store";

/// Query parameter naming the target's host to a relay.
pub const TARGET_HOST_PARAM: &'static str = "targethost";

/// Query parameter naming the target's query path to a relay.
pub const TARGET_PATH_PARAM: &'static str = "targetpath";

/// The protocol's media type, sent as `Content-Type` and `Accept`.
pub open spec fn media_type() -> Seq<char> {
    "application/oblivious-dns-message"@
}

/// An HTTP POST ready to be sent.
pub struct HttpRequest {
    pub url: Url,
    /// Query parameters to append to `url`, in order.
    pub params: Vec<(String, String)>,
    pub content_type: String,
    pub accept: String,
    pub cache_control: String,
    pub body: Vec<u8>,
}

/// The text of each name and value of a parameter list.
pub open spec fn params_view(p: Seq<(String, String)>) -> Seq<(Seq<char>, Seq<char>)> {
    p.map_values(|x: (String, String)| (x.0@, x.1@))
}

/// The parameters that tell a relay where to forward a query.
pub open spec fn relay_params(host: Seq<char>) -> Seq<(Seq<char>, Seq<char>)> {
    seq![(TARGET_HOST_PARAM@, host), (TARGET_PATH_PARAM@, QUERY_PATH@)]
}

/// The URL at which `target` publishes its configuration set.
pub fn configs_url(target: &str) -> (r: String)
    ensures
        r@ == target@ + WELL_KNOWN@,
{
    target.to_owned().concat(WELL_KNOWN)
}

/// The request that carries `body` to the target's query URL `target`: to
/// the relay `proxy` with the target's host and path as parameters where a
/// relay is given, else straight to the target, which hides nothing of the
/// client from the target. Fails where the target has no host.
pub fn route(target: &Url, target_host: &Option<String>, proxy: &Option<Url>, body: &[u8]) -> (r:
    Result<HttpRequest, ClientError>)
    ensures
        target_host.is_none() <==> r == Err::<HttpRequest, ClientError>(ClientError::MissingTargetHost),
        r is Ok <==> target_host.is_some(),
        r matches Ok(req) ==> {
            &&& req.content_type@ == media_type()
            &&& req.accept@ == media_type()
            &&& req.cache_control@ == NO_CACHE@
            &&& req.body@ == body@
            &&& match proxy {
                Some(p) => req.url == *p && params_view(req.params@) == relay_params(
                    target_host->Some_0@,
                ),
                None => req.url == *target && req.params@.len() == 0,
            }
        },
{
    let host = match target_host {
        Some(h) => h,
        None => return Err(ClientError::MissingTargetHost),
    };
    let (url, params) = match proxy {
        Some(p) => {
            let params = vec![
                (TARGET_HOST_PARAM.to_owned(), host.clone()),
                (TARGET_PATH_PARAM.to_owned(), QUERY_PATH.to_owned()),
            ];
            assert(params_view(params@) =~= relay_params(host@));
            (clone_url(p), params)
        },
        None => (clone_url(target), Vec::new()),
    };
    Ok(
        HttpRequest {
            url,
            params,
            content_type: odoh_media_type().to_owned(),
            accept: odoh_media_type().to_owned(),
            cache_control: NO_CACHE.to_owned(),
            body: copy_bytes(body),
        },
    )
}

/// A fresh vector holding the bytes of `b`.
pub fn copy_bytes(b: &[u8]) -> (r: Vec<u8>)
    ensures
        r@ == b@,
{
    let mut v: Vec<u8> = Vec::with_capacity(b.len());
    let mut i: usize = 0;
    while i < b.len()
        invariant
            i <= b@.len(),
            v@ == b@.subrange(0, i as int),
        decreases b@.len() - i,
    {
        v.push(b[i]);
        assert(v@ =~= b@.subrange(0, i + 1));
        i = i + 1;
    }
    assert(v@ =~= b@);
    v
}

/// Whether an HTTP status lets the body be read as a response envelope:
/// only 200 does.
pub fn check_status(status: u16) -> (r: Result<(), ClientError>)
    ensures
        status == 200 <==> r is Ok,
        status != 200 ==> r == Err::<(), ClientError>(ClientError::HttpStatus(status)),
{
    if status != 200 {
        Err(ClientError::HttpStatus(status))
    } else {
        Ok(())
    }
}

} // verus!
