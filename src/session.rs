//! A client session: the resolved target configuration, and the one query
//! whose response it waits for.
use crate::config::Config;
use crate::dns::{create_dns_query, dns_query};
use crate::error::ClientError;
use crate::protocol::{
    compose_message, decode_message, encrypt_query, fresh_rng, is_authentication_failure,
    message_decodes, open_response, opened_answer, parse_url, set_url_path, url_host, url_parses,
};
use crate::transport::{
    check_status, copy_bytes, media_type, params_view, relay_params, route, HttpRequest, NO_CACHE,
    QUERY_PATH,
};
use crate::wire::{config_entries, entries_view, first_supported, select_config, split_config_set};
use odoh_rs::ObliviousDoHConfigContents;
use url::Url;
use vstd::prelude::*;
use vstd::string::StringSliceAdditionalSpecFns;

verus! {

/// Plaintext queries are padded so that their encoding, two length-prefixed
/// fields, fills whole blocks of this many bytes.
pub const PADDING_BLOCK: usize = 128;

/// Bytes of the two length prefixes of an encoded plaintext query.
pub const PLAINTEXT_OVERHEAD: usize = 4;

/// Zero bytes of padding for a DNS message of `msg_len` bytes.
pub open spec fn padding_for(msg_len: nat) -> nat {
    let used: int = (msg_len + PLAINTEXT_OVERHEAD) as int % (PADDING_BLOCK as int);
    if used == 0 {
        0
    } else {
        (PADDING_BLOCK - used) as nat
    }
}

/// The padding that rounds the encoded plaintext of a DNS message of
/// `msg_len` bytes up to a whole number of blocks.
pub fn padding_len(msg_len: usize) -> (r: usize)
    requires
        msg_len + PLAINTEXT_OVERHEAD <= usize::MAX,
    ensures
        r == padding_for(msg_len as nat),
        r < PADDING_BLOCK,
        (msg_len + PLAINTEXT_OVERHEAD + r) % (PADDING_BLOCK as int) == 0,
{
    let used = (msg_len + PLAINTEXT_OVERHEAD) % PADDING_BLOCK;
    if used == 0 {
        0
    } else {
        PADDING_BLOCK - used
    }
}

/// A DNS query and the padding length it was encrypted with.
#[derive(Clone, Debug)]
pub struct QueryPlaintext {
    pub dns_msg: Vec<u8>,
    pub padding_len: usize,
}

/// One client of one target: where queries go, the target's selected
/// configuration, and the query whose response is awaited.
pub struct ClientSession {
    /// The target's query URL.
    pub target: Url,
    /// The target's host, which a relay is told to forward to.
    pub target_host: Option<String>,
    /// The relay's URL, if queries go through one.
    pub proxy: Option<Url>,
    /// The secret of the pending query.
    pub client_secret: Option<[u8; 16]>,
    /// The configuration queries are encrypted to.
    pub target_config: ObliviousDoHConfigContents,
    /// The encoded contents that `target_config` was decoded from.
    pub target_config_wire: Vec<u8>,
    /// The pending query.
    pub query: Option<QueryPlaintext>,
}

impl ClientSession {
    /// A query is pending exactly when its secret is held.
    pub open spec fn wf(&self) -> bool {
        self.query.is_some() == self.client_secret.is_some()
    }

    /// Whether a query awaits its response.
    pub open spec fn pending(&self) -> bool {
        self.query.is_some() && self.client_secret.is_some()
    }

    /// Whether `other` has the same target, relay and configuration.
    pub open spec fn same_endpoints(&self, other: &Self) -> bool {
        &&& self.target == other.target
        &&& self.target_host == other.target_host
        &&& self.proxy == other.proxy
        &&& self.target_config == other.target_config
        &&& self.target_config_wire == other.target_config_wire
    }

    /// A session for the target and relay of `config`, whose published
    /// configuration set is `odohconfigs`. The first supported entry, in
    /// publication order, is selected; a relay URL that does not parse is
    /// left out.
    pub fn new(config: &Config, odohconfigs: &[u8]) -> (r: Result<Self, ClientError>)
        ensures
            !url_parses(config.server.target@) <==> r == Err::<Self, ClientError>(
                ClientError::InvalidTargetUrl,
            ),
            url_parses(config.server.target@) ==> (config_entries(odohconfigs@) is None <==> r
                == Err::<Self, ClientError>(ClientError::ConfigDecodeFailed)),
            url_parses(config.server.target@) && config_entries(odohconfigs@) is Some ==> {
                &&& first_supported(config_entries(odohconfigs@)->Some_0) is None <==> r == Err::<
                    Self,
                    ClientError,
                >(ClientError::NoCompatibleConfig)
                &&& r is Ok <==> first_supported(config_entries(odohconfigs@)->Some_0) is Some
            },
            r matches Err(e) ==> e == ClientError::InvalidTargetUrl || e
                == ClientError::ConfigDecodeFailed || e == ClientError::NoCompatibleConfig,
            r matches Ok(s) ==> {
                &&& s.wf()
                &&& !s.pending()
                &&& s.query.is_none()
                &&& s.proxy.is_some() <==> (config.server.proxy matches Some(p) && url_parses(p@))
                &&& config_entries(odohconfigs@) matches Some(es)
                &&& first_supported(es) matches Some(j)
                &&& s.target_config_wire@ == es[j].1
            },
    {
        let mut target = match parse_url(config.server.target.as_str()) {
            Ok(u) => u,
            Err(_) => return Err(ClientError::InvalidTargetUrl),
        };
        set_url_path(&mut target, QUERY_PATH);
        let target_host = url_host(&target);
        let proxy = match &config.server.proxy {
            Some(p) => match parse_url(p.as_str()) {
                Ok(u) => Some(u),
                Err(_) => None,
            },
            None => None,
        };
        let entries = match split_config_set(odohconfigs) {
            Some(e) => e,
            None => return Err(ClientError::ConfigDecodeFailed),
        };
        let (target_config, j) = select_config(&entries)?;
        let target_config_wire = copy_bytes(entries[j].contents.as_slice());
        assert(entries_view(entries@)[j as int].1 == entries@[j as int].contents@);
        Ok(
            ClientSession {
                target,
                target_host,
                proxy,
                client_secret: None,
                target_config,
                target_config_wire,
                query: None,
            },
        )
    }

    /// Builds the DNS query for `domain` and `qtype`, pads and encrypts it to
    /// the target's configuration with a fresh secret, and returns the
    /// encoded envelope. The new query replaces any pending one; on failure
    /// no query is left pending.
    pub fn create_request(&mut self, domain: &str, qtype: &str) -> (r: Result<Vec<u8>, ClientError>)
        ensures
            final(self).wf(),
            final(self).same_endpoints(old(self)),
            dns_query(domain.spec_bytes(), qtype.spec_bytes()) is None <==> r == Err::<
                Vec<u8>,
                ClientError,
            >(ClientError::InvalidQuery),
            r matches Err(e) ==> (e == ClientError::InvalidQuery || e
                == ClientError::EncryptionFailed) && !final(self).pending() && final(self).query.is_none(),
            r matches Ok(body) ==> {
                &&& body@.len() >= 5
                &&& final(self).pending()
                &&& dns_query(domain.spec_bytes(), qtype.spec_bytes()) matches Some(m)
                &&& final(self).query->Some_0.dns_msg@ == m
                &&& final(self).query->Some_0.padding_len == padding_for(m.len())
            },
    {
        self.query = None;
        self.client_secret = None;
        let dns_msg = match create_dns_query(domain, qtype) {
            Some(m) => m,
            None => return Err(ClientError::InvalidQuery),
        };
        assert(dns_msg@.len() <= 12 + 255 + 4);
        let pad = padding_len(dns_msg.len());
        let mut rng = match fresh_rng() {
            Some(g) => g,
            None => return Err(ClientError::EncryptionFailed),
        };
        let (oblivious_query, secret) = match encrypt_query(
            dns_msg.as_slice(),
            pad,
            &self.target_config,
            &mut rng,
        ) {
            Ok(x) => x,
            Err(_) => return Err(ClientError::EncryptionFailed),
        };
        let body = match compose_message(&oblivious_query) {
            Ok(b) => b,
            Err(_) => return Err(ClientError::EncryptionFailed),
        };
        self.query = Some(QueryPlaintext { dns_msg, padding_len: pad });
        self.client_secret = Some(secret);
        Ok(body)
    }

    /// The HTTP request that sends the encoded envelope `request`: through
    /// the relay where the session has one, else directly to the target.
    pub fn send_request(&self, request: &[u8]) -> (r: Result<HttpRequest, ClientError>)
        ensures
            self.target_host.is_none() <==> r == Err::<HttpRequest, ClientError>(
                ClientError::MissingTargetHost,
            ),
            r is Ok <==> self.target_host.is_some(),
            r matches Ok(req) ==> {
                &&& req.content_type@ == media_type()
                &&& req.accept@ == media_type()
                &&& req.cache_control@ == NO_CACHE@
                &&& req.body@ == request@
                &&& match self.proxy {
                    Some(p) => req.url == p && params_view(req.params@) == relay_params(
                        self.target_host->Some_0@,
                    ),
                    None => req.url == self.target && req.params@.len() == 0,
                }
            },
    {
        route(&self.target, &self.target_host, &self.proxy, request)
    }

    /// Opens the response to the pending query, which came back with HTTP
    /// status `status` and body `body`, and returns the DNS answer. The
    /// pending query is consumed whatever the outcome; a status other than
    /// 200 fails before the body is looked at.
    pub fn parse_response(&mut self, status: u16, body: &[u8]) -> (r: Result<Vec<u8>, ClientError>)
        ensures
            final(self).wf(),
            !final(self).pending(),
            final(self).query.is_none(),
            final(self).same_endpoints(old(self)),
            status != 200 ==> r == Err::<Vec<u8>, ClientError>(ClientError::HttpStatus(status)),
            status == 200 && !old(self).pending() ==> r == Err::<Vec<u8>, ClientError>(
                ClientError::InvalidSessionState,
            ),
            status == 200 && old(self).pending() && !message_decodes(body@) ==> r == Err::<
                Vec<u8>,
                ClientError,
            >(ClientError::ResponseDecodeFailed),
            status == 200 && old(self).pending() && message_decodes(body@) ==> {
                let q = old(self).query->Some_0;
                let k = old(self).client_secret->Some_0;
                let opened = opened_answer(q.dns_msg@, q.padding_len as nat, k@, body@);
                &&& r is Ok <==> opened is Some
                &&& r matches Ok(a) ==> opened == Some(a@)
            },
            status == 200 && old(self).pending() && body@.len() < 5 ==> r == Err::<
                Vec<u8>,
                ClientError,
            >(ClientError::ResponseDecodeFailed),
            r matches Ok(_) ==> status == 200 && old(self).pending() && message_decodes(body@),
            r matches Err(e) ==> e == ClientError::HttpStatus(status) || e
                == ClientError::InvalidSessionState || e == ClientError::ResponseDecodeFailed || e
                == ClientError::AuthenticationFailed,
            r matches Err(ClientError::HttpStatus(c)) ==> c != 200,
    {
        let query = self.query.take();
        let secret = self.client_secret.take();
        check_status(status)?;
        let (query, secret) = match (query, secret) {
            (Some(q), Some(s)) => (q, s),
            _ => return Err(ClientError::InvalidSessionState),
        };
        if decode_message(body).is_err() {
            return Err(ClientError::ResponseDecodeFailed);
        }
        match open_response(query.dns_msg.as_slice(), query.padding_len, secret, body) {
            Ok(answer) => Ok(answer),
            Err(e) => if is_authentication_failure(&e) {
                Err(ClientError::AuthenticationFailed)
            } else {
                Err(ClientError::ResponseDecodeFailed)
            },
        }
    }
}

} // verus!
