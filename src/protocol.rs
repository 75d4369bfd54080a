//! Bindings to the `odoh_rs` protocol library, the `url` parser and the
//! `rand` generator. Every item here is a thin call into the outside crate.
use odoh_rs::{ObliviousDoHConfigContents, ObliviousDoHMessage, ObliviousDoHMessagePlaintext};
use rand::rngs::StdRng;
use rand::SeedableRng;
use url::Url;
use crate::dns::u16_at;
use vstd::prelude::*;

verus! {

#[verifier::external_type_specification]
#[verifier::external_body]
pub struct ExConfigContents(ObliviousDoHConfigContents);

#[verifier::external_type_specification]
#[verifier::external_body]
pub struct ExMessage(ObliviousDoHMessage);

#[verifier::external_type_specification]
#[verifier::external_body]
pub struct ExOdohError(odoh_rs::Error);

#[verifier::external_type_specification]
#[verifier::external_body]
pub struct ExStdRng(StdRng);

#[verifier::external_type_specification]
#[verifier::external_body]
pub struct ExUrl(Url);

#[verifier::external_type_specification]
#[verifier::external_body]
pub struct ExUrlParseError(url::ParseError);

/// Whether `odoh_rs` accepts the bytes as the contents of one configuration:
/// the algorithm identifiers it supports and a public key of the right size.
pub uninterp spec fn contents_decode(b: Seq<u8>) -> bool;

/// Whether `odoh_rs` reads an oblivious message from the bytes: a type byte
/// of 1 (query) or 2 (response), then two fields with a two-byte length each
/// that fit in what follows; bytes after them are left unread.
pub open spec fn message_decodes(body: Seq<u8>) -> bool {
    &&& body.len() >= 3
    &&& (body[0] == 1 || body[0] == 2)
    &&& 3 + u16_at(body, 1) + 2 <= body.len()
    &&& 3 + u16_at(body, 1) + 2 + u16_at(body, 3 + u16_at(body, 1)) <= body.len()
}

/// Whether the `url` crate accepts the text as an absolute URL.
pub uninterp spec fn url_parses(s: Seq<char>) -> bool;

/// The DNS answer that `odoh_rs::decrypt_response` opens from the encoded
/// response `body`, for the query `dns_msg` padded by `padding_len` zero
/// bytes and its secret, or `None` where it does not open.
pub uninterp spec fn opened_answer(dns_msg: Seq<u8>, padding_len: nat, secret: Seq<u8>, body: Seq<u8>) -> Option<Seq<u8>>;

/// Relies on `odoh_rs::parse` for `ObliviousDoHConfigContents`, which checks
/// the algorithm identifiers and the key size; the outcome depends on the
/// bytes alone.
#[verifier::external_body]
pub(crate) fn decode_config_contents(b: &[u8]) -> (r: Option<ObliviousDoHConfigContents>)
    ensures
        r.is_some() == contents_decode(b@),
{
    let mut buf = b;
    odoh_rs::parse::<ObliviousDoHConfigContents, _>(&mut buf).ok()
}

/// Relies on `odoh_rs::ODOH_VERSION`, the configuration version it speaks.
#[verifier::external_body]
pub(crate) fn odoh_version() -> (r: u16)
    ensures
        r == 1,
{
    odoh_rs::ODOH_VERSION
}

/// Relies on `odoh_rs::parse` for `ObliviousDoHMessage`, whose reader takes
/// a type byte it knows and two length-prefixed fields.
#[verifier::external_body]
pub(crate) fn decode_message(body: &[u8]) -> (r: Result<ObliviousDoHMessage, odoh_rs::Error>)
    ensures
        r.is_ok() == message_decodes(body@),
{
    let mut buf = body;
    odoh_rs::parse::<ObliviousDoHMessage, _>(&mut buf)
}

/// Relies on `odoh_rs::compose` for `ObliviousDoHMessage`, which writes a type
/// byte and two length-prefixed fields.
#[verifier::external_body]
pub(crate) fn compose_message(msg: &ObliviousDoHMessage) -> (r: Result<Vec<u8>, odoh_rs::Error>)
    ensures
        r matches Ok(b) ==> b@.len() >= 5,
{
    odoh_rs::compose(msg).map(|b| b.to_vec())
}

/// Relies on `odoh_rs::encrypt_query`: HPKE encapsulation to the config's
/// public key with fresh randomness, sealing the plaintext query that
/// `ObliviousDoHMessagePlaintext::new` makes of `dns_msg` and `padding_len`
/// zero bytes, and the exported response secret.
#[verifier::external_body]
pub(crate) fn encrypt_query(
    dns_msg: &[u8],
    padding_len: usize,
    config: &ObliviousDoHConfigContents,
    rng: &mut StdRng,
) -> (r: Result<(ObliviousDoHMessage, [u8; 16]), odoh_rs::Error>) {
    let query = ObliviousDoHMessagePlaintext::new(dns_msg, padding_len);
    odoh_rs::encrypt_query(&query, config, rng)
}

/// Relies on `odoh_rs::decrypt_response`, applied to the message that
/// `odoh_rs::parse` reads from `body` and to the plaintext query that
/// `ObliviousDoHMessagePlaintext::new` makes of `dns_msg` and `padding_len`
/// zero bytes; the answer is the DNS message of what it opens. The outcome
/// depends on the arguments alone.
#[verifier::external_body]
pub(crate) fn open_response(
    dns_msg: &[u8],
    padding_len: usize,
    secret: [u8; 16],
    body: &[u8],
) -> (r: Result<Vec<u8>, odoh_rs::Error>)
    ensures
        r.is_ok() == opened_answer(dns_msg@, padding_len as nat, secret@, body@) is Some,
        r matches Ok(a) ==> opened_answer(dns_msg@, padding_len as nat, secret@, body@) == Some(a@),
{
    let mut buf = body;
    let response: ObliviousDoHMessage = odoh_rs::parse(&mut buf)?;
    let query = ObliviousDoHMessagePlaintext::new(dns_msg, padding_len);
    let answer = odoh_rs::decrypt_response(&query, &response, secret)?;
    Ok(answer.into_msg().to_vec())
}

/// Relies on the variants of `odoh_rs::Error`: `AesGcm` is a failed
/// authenticated decryption.
#[verifier::external_body]
pub(crate) fn is_authentication_failure(e: &odoh_rs::Error) -> (r: bool) {
    matches!(e, odoh_rs::Error::AesGcm(_))
}

/// Relies on `SeedableRng::try_from_rng` with `rand::rngs::SysRng`: a
/// `StdRng` seeded from the system's entropy, or `None` where the system
/// gives none.
#[verifier::external_body]
pub(crate) fn fresh_rng() -> (r: Option<StdRng>) {
    StdRng::try_from_rng(&mut rand::rngs::SysRng).ok()
}

/// Relies on `odoh_rs::ODOH_HTTP_HEADER`, the protocol's media type.
#[verifier::external_body]
pub(crate) fn odoh_media_type() -> (r: &'static str)
    ensures
        r@ == "application/oblivious-dns-message"@,
{
    odoh_rs::ODOH_HTTP_HEADER
}

/// Relies on `url::Url::parse`.
#[verifier::external_body]
pub(crate) fn parse_url(s: &str) -> (r: Result<Url, url::ParseError>)
    ensures
        r.is_ok() == url_parses(s@),
{
    Url::parse(s)
}

/// Relies on `url::Url::set_path`, which replaces the URL's path.
#[verifier::external_body]
pub(crate) fn set_url_path(u: &mut Url, path: &str) {
    u.set_path(path)
}

/// Relies on `url::Url::host_str`: the host, if the URL has one.
#[verifier::external_body]
pub(crate) fn url_host(u: &Url) -> (r: Option<String>) {
    u.host_str().map(|h| h.to_string())
}

/// Relies on the derived `Clone` of `url::Url`, which copies every field.
#[verifier::external_body]
pub(crate) fn clone_url(u: &Url) -> (r: Url)
    ensures
        r == *u,
{
    u.clone()
}

} // verus!
