use odoh_client::config::{Config, Server, DEFAULT_PROXY, DEFAULT_TARGET};
use odoh_client::dns::{create_dns_query, parse_dns_answer, record_type_code, DnsRecord};
use odoh_client::error::ClientError;
use odoh_client::session::{padding_len, ClientSession, PADDING_BLOCK};
use odoh_client::transport::{check_status, configs_url};
use odoh_rs::{
    compose, decrypt_query, encrypt_response, parse, ObliviousDoHConfig, ObliviousDoHConfigs,
    ObliviousDoHKeyPair, ObliviousDoHMessage, ObliviousDoHMessagePlaintext,
};

const TARGET: &str = "https://odoh.example.net";
const RELAY: &str = "https://relay.example.org/proxy";
const ADDRESS: [u8; 4] = [93, 184, 216, 34];

fn key_pair(seed: u8) -> ObliviousDoHKeyPair {
    ObliviousDoHKeyPair::from_parameters(0x0020, 0x0001, 0x0001, &[seed; 32])
}

fn config(proxy: Option<&str>) -> Config {
    Config {
        server: Server {
            proxy: proxy.map(|p| p.to_string()),
            target: TARGET.to_string(),
        },
    }
}

fn config_set(kp: &ObliviousDoHKeyPair) -> Vec<u8> {
    let set = ObliviousDoHConfigs::from(vec![ObliviousDoHConfig::from(kp.public().clone())]);
    compose(&set).unwrap().to_vec()
}

fn config_entry(version: u16, kp: &ObliviousDoHKeyPair) -> Vec<u8> {
    let contents = compose(kp.public()).unwrap().to_vec();
    let mut entry = version.to_be_bytes().to_vec();
    entry.extend_from_slice(&(contents.len() as u16).to_be_bytes());
    entry.extend_from_slice(&contents);
    entry
}

fn set_of(entries: &[Vec<u8>]) -> Vec<u8> {
    let body: Vec<u8> = entries.concat();
    let mut set = (body.len() as u16).to_be_bytes().to_vec();
    set.extend_from_slice(&body);
    set
}

fn session(kp: &ObliviousDoHKeyPair, proxy: Option<&str>) -> ClientSession {
    ClientSession::new(&config(proxy), &config_set(kp)).unwrap()
}

/// A resolver that answers every question with one A record.
fn answer_for(query: &[u8]) -> Vec<u8> {
    let mut msg = vec![query[0], query[1], 0x81, 0x80, 0, 1, 0, 1, 0, 0, 0, 0];
    msg.extend_from_slice(&query[12..]);
    msg.extend_from_slice(&[0xc0, 0x0c, 0, 1, 0, 1, 0, 0, 0x0e, 0x10, 0, 4]);
    msg.extend_from_slice(&ADDRESS);
    msg
}

/// Opens an oblivious query with the target's key pair and seals the answer.
fn resolve(kp: &ObliviousDoHKeyPair, request: &[u8]) -> (Vec<u8>, Vec<u8>) {
    let mut buf = request;
    let msg: ObliviousDoHMessage = parse(&mut buf).unwrap();
    let (query, secret) = decrypt_query(&msg, kp).unwrap();
    let dns_query = query.clone().into_msg().to_vec();
    let answer = answer_for(&dns_query);
    let plaintext = ObliviousDoHMessagePlaintext::new(&answer, 0);
    let sealed = encrypt_response(&query, &plaintext, secret, [7u8; 16]).unwrap();
    (compose(&sealed).unwrap().to_vec(), dns_query)
}

#[test]
fn default_config_names_the_known_servers() {
    let c = Config::new();
    assert_eq!(c.server.target, DEFAULT_TARGET);
    assert_eq!(c.server.target, "https://odoh.cloudflare-dns.com");
    assert_eq!(c.server.proxy.as_deref(), Some(DEFAULT_PROXY));
}

#[test]
fn dns_query_for_example_com() {
    let q = create_dns_query("example.com", "A").unwrap();
    let mut expected = vec![0u8, 0, 1, 0, 0, 1, 0, 0, 0, 0, 0, 0, 7];
    expected.extend_from_slice(b"example");
    expected.push(3);
    expected.extend_from_slice(b"com");
    expected.extend_from_slice(&[0, 0, 1, 0, 1]);
    assert_eq!(q, expected);
    assert_eq!(create_dns_query("example.com.", "a").unwrap(), expected);
}

#[test]
fn dns_query_type_codes() {
    assert_eq!(record_type_code("AAAA"), Some(28));
    assert_eq!(record_type_code("mx"), Some(15));
    assert_eq!(record_type_code("Https"), Some(65));
    assert_eq!(record_type_code("BOGUS"), None);
    assert_eq!(record_type_code(""), None);
    let q = create_dns_query("a.b", "TXT").unwrap();
    assert_eq!(q[12..], [1, b'a', 1, b'b', 0, 0, 16, 0, 1]);
}

#[test]
fn dns_query_rejects_bad_names() {
    assert_eq!(create_dns_query("", "A"), None);
    assert_eq!(create_dns_query(".", "A"), None);
    assert_eq!(create_dns_query("a..b", "A"), None);
    assert_eq!(create_dns_query(".a", "A"), None);
    assert_eq!(create_dns_query("example.com", "BOGUS"), None);
    let long_label = "x".repeat(64);
    assert_eq!(create_dns_query(&long_label, "A"), None);
    assert!(create_dns_query(&"x".repeat(63), "A").is_some());
    let long_name = vec!["abcdefg"; 32].join(".");
    assert_eq!(long_name.len(), 255);
    assert_eq!(create_dns_query(&long_name, "A"), None);
    let longest = vec!["abcdefg"; 31].join(".") + ".abcde";
    assert_eq!(longest.len(), 253);
    assert!(create_dns_query(&longest, "A").is_some());
}

#[test]
fn padding_fills_whole_blocks() {
    assert_eq!(padding_len(29), 95);
    assert_eq!(padding_len(124), 0);
    assert_eq!(padding_len(0), 124);
    for n in 0..600usize {
        let p = padding_len(n);
        assert!(p < PADDING_BLOCK);
        assert_eq!((n + 4 + p) % PADDING_BLOCK, 0);
    }
}

#[test]
fn configs_url_appends_well_known_path() {
    assert_eq!(configs_url(TARGET), "https://odoh.example.net/.well-known/odohconfigs");
}

#[test]
fn status_other_than_ok_is_an_error() {
    assert_eq!(check_status(200), Ok(()));
    assert_eq!(check_status(500), Err(ClientError::HttpStatus(500)));
    assert_eq!(check_status(204), Err(ClientError::HttpStatus(204)));
}

#[test]
fn new_rejects_bad_target_and_configs() {
    let kp = key_pair(1);
    let mut bad = config(None);
    bad.server.target = "not a url".to_string();
    assert_eq!(ClientSession::new(&bad, &config_set(&kp)).err(), Some(ClientError::InvalidTargetUrl));
    assert_eq!(ClientSession::new(&config(None), &[0, 9, 1]).err(), Some(ClientError::ConfigDecodeFailed));
    assert_eq!(ClientSession::new(&config(None), &[]).err(), Some(ClientError::ConfigDecodeFailed));
    assert_eq!(ClientSession::new(&config(None), &[0, 0]).err(), Some(ClientError::NoCompatibleConfig));
    let only_other_version = set_of(&[config_entry(2, &kp)]);
    assert_eq!(
        ClientSession::new(&config(None), &only_other_version).err(),
        Some(ClientError::NoCompatibleConfig)
    );
}

#[test]
fn selection_skips_incompatible_entry() {
    let other = key_pair(1);
    let kp = key_pair(2);
    let set = set_of(&[config_entry(2, &other), config_entry(1, &kp)]);
    let mut s = ClientSession::new(&config(None), &set).unwrap();
    assert_eq!(&s.target_config, kp.public());
    let request = s.create_request("example.com", "A").unwrap();
    let (response, _) = resolve(&kp, &request);
    assert!(s.parse_response(200, &response).is_ok());
}

#[test]
fn selection_skips_entry_with_unsupported_algorithms() {
    let other = key_pair(1);
    let kp = key_pair(2);
    let mut unsupported = compose(other.public()).unwrap().to_vec();
    unsupported[0] = 0x00;
    unsupported[1] = 0x99;
    let mut first = 1u16.to_be_bytes().to_vec();
    first.extend_from_slice(&(unsupported.len() as u16).to_be_bytes());
    first.extend_from_slice(&unsupported);
    let set = set_of(&[first, config_entry(1, &kp)]);
    let mut s = ClientSession::new(&config(None), &set).unwrap();
    assert_eq!(&s.target_config, kp.public());
    assert_eq!(s.target_config_wire, compose(kp.public()).unwrap().to_vec());
    let request = s.create_request("example.com", "A").unwrap();
    let (response, _) = resolve(&kp, &request);
    assert!(s.parse_response(200, &response).is_ok());
    let all_unsupported = set_of(&[config_entry(2, &kp), {
        let mut e = 1u16.to_be_bytes().to_vec();
        e.extend_from_slice(&(unsupported.len() as u16).to_be_bytes());
        e.extend_from_slice(&unsupported);
        e
    }]);
    assert_eq!(
        ClientSession::new(&config(None), &all_unsupported).err(),
        Some(ClientError::NoCompatibleConfig)
    );
}

#[test]
fn selection_takes_first_of_two_compatible() {
    let first = key_pair(3);
    let second = key_pair(4);
    let set = set_of(&[config_entry(1, &first), config_entry(1, &second)]);
    let s = ClientSession::new(&config(None), &set).unwrap();
    assert_eq!(&s.target_config, first.public());
}

#[test]
fn request_goes_directly_without_relay() {
    let kp = key_pair(1);
    let mut s = session(&kp, None);
    let body = s.create_request("example.com", "A").unwrap();
    let req = s.send_request(&body).unwrap();
    assert_eq!(req.url.as_str(), "https://odoh.example.net/dns-query");
    assert!(req.params.is_empty());
    assert_eq!(req.body, body);
    assert_eq!(req.content_type, "application/oblivious-dns-message");
    assert_eq!(req.accept, "application/oblivious-dns-message");
    assert_eq!(req.cache_control, "no-cache, no-store");
}

#[test]
fn request_goes_through_relay_with_target_params() {
    let kp = key_pair(1);
    let mut s = session(&kp, Some(RELAY));
    let body = s.create_request("example.com", "A").unwrap();
    let req = s.send_request(&body).unwrap();
    assert_eq!(req.url.as_str(), RELAY);
    assert_eq!(
        req.params,
        vec![
            ("targethost".to_string(), "odoh.example.net".to_string()),
            ("targetpath".to_string(), "/dns-query".to_string()),
        ]
    );
    assert_eq!(req.body, body);
}

#[test]
fn unparsable_relay_is_left_out() {
    let kp = key_pair(1);
    let s = session(&kp, Some("::not a url::"));
    assert!(s.proxy.is_none());
}

#[test]
fn round_trip_returns_resolver_answer() {
    let kp = key_pair(5);
    let mut s = session(&kp, None);
    let request = s.create_request("example.com", "A").unwrap();
    assert!(!request.is_empty());
    let (response, seen_query) = resolve(&kp, &request);
    assert_eq!(seen_query, create_dns_query("example.com", "A").unwrap());
    let answer = s.parse_response(200, &response).unwrap();
    assert_eq!(answer, answer_for(&seen_query));
    assert_eq!(answer[answer.len() - 4..], ADDRESS);
    assert!(s.query.is_none());
    assert!(s.client_secret.is_none());
}

#[test]
fn example_com_scenario_through_relay() {
    let kp = key_pair(6);
    let mut s = session(&kp, Some(RELAY));
    let request = s.create_request("example.com", "A").unwrap();
    let (response, _) = resolve(&kp, &request);
    let answer = s.parse_response(200, &response).unwrap();
    assert_eq!(answer[answer.len() - 4..], ADDRESS);
}

#[test]
fn response_to_other_query_fails_authentication() {
    let kp = key_pair(1);
    let mut s = session(&kp, None);
    let first = s.create_request("example.com", "A").unwrap();
    let (first_response, _) = resolve(&kp, &first);
    let _second = s.create_request("example.org", "A").unwrap();
    assert_eq!(s.parse_response(200, &first_response), Err(ClientError::AuthenticationFailed));

    let mut other = session(&kp, None);
    let _ = other.create_request("example.com", "A").unwrap();
    let mut s2 = session(&kp, None);
    let q = s2.create_request("example.com", "A").unwrap();
    let (resp, _) = resolve(&kp, &q);
    assert_eq!(other.parse_response(200, &resp), Err(ClientError::AuthenticationFailed));
}

#[test]
fn non_ok_status_fails_before_decoding() {
    let kp = key_pair(1);
    let mut s = session(&kp, None);
    let request = s.create_request("example.com", "A").unwrap();
    let (response, _) = resolve(&kp, &request);
    assert_eq!(s.parse_response(500, &response), Err(ClientError::HttpStatus(500)));
    assert!(s.query.is_none());
    assert_eq!(s.parse_response(200, &response), Err(ClientError::InvalidSessionState));
}

#[test]
fn response_without_pending_query_is_invalid_state() {
    let kp = key_pair(1);
    let mut s = session(&kp, None);
    assert_eq!(s.parse_response(200, &[2, 0, 0, 0, 0]), Err(ClientError::InvalidSessionState));
}

#[test]
fn invalid_query_leaves_nothing_pending() {
    let kp = key_pair(1);
    let mut s = session(&kp, None);
    s.create_request("example.com", "A").unwrap();
    assert_eq!(s.create_request("a..b", "A"), Err(ClientError::InvalidQuery));
    assert!(s.query.is_none());
    assert!(s.client_secret.is_none());
}

#[test]
fn malformed_responses_are_decode_errors() {
    let kp = key_pair(1);
    let mut s = session(&kp, None);
    let request = s.create_request("example.com", "A").unwrap();
    let (response, _) = resolve(&kp, &request);
    for n in 0..response.len() {
        let r = s.create_request("example.com", "A");
        assert!(r.is_ok());
        let got = s.parse_response(200, &response[..n]);
        assert!(got.is_err());
        if n < 5 {
            assert_eq!(got, Err(ClientError::ResponseDecodeFailed));
        }
    }
    let mut bad_tag = response.clone();
    bad_tag[0] = 9;
    s.create_request("example.com", "A").unwrap();
    assert_eq!(s.parse_response(200, &bad_tag), Err(ClientError::ResponseDecodeFailed));
    for i in 0..response.len() {
        let mut flipped = response.clone();
        flipped[i] ^= 0x5a;
        s.create_request("example.com", "A").unwrap();
        assert!(s.parse_response(200, &flipped).is_err());
    }
}

#[test]
fn malformed_config_sets_are_decode_errors() {
    let kp = key_pair(1);
    let good = config_set(&kp);
    assert!(ClientSession::new(&config(None), &good).is_ok());
    for n in 0..good.len() {
        let r = ClientSession::new(&config(None), &good[..n]);
        assert_eq!(r.err(), Some(ClientError::ConfigDecodeFailed));
    }
    let mut bad_kem = good.clone();
    bad_kem[7] ^= 0xff;
    assert_eq!(ClientSession::new(&config(None), &bad_kem).err(), Some(ClientError::NoCompatibleConfig));
    let mut bad_length = good.clone();
    bad_length[1] += 1;
    assert_eq!(ClientSession::new(&config(None), &bad_length).err(), Some(ClientError::ConfigDecodeFailed));
    let mut short_entry = good.clone();
    short_entry[1] = 3;
    assert_eq!(ClientSession::new(&config(None), &short_entry).err(), Some(ClientError::ConfigDecodeFailed));
}

#[test]
fn error_messages_are_not_empty() {
    assert_eq!(ClientError::NoCompatibleConfig.message(), "no available config");
    assert!(!ClientError::HttpStatus(500).message().is_empty());
}

#[test]
fn answer_section_is_read_through_compressed_names() {
    let query = create_dns_query("example.com", "A").unwrap();
    let answer = answer_for(&query);
    let records = parse_dns_answer(&answer).unwrap();
    assert_eq!(records, vec![DnsRecord { rtype: 1, rdata: ADDRESS.to_vec() }]);
    for n in 0..answer.len() {
        assert_eq!(parse_dns_answer(&answer[..n]), None);
    }
    let mut bad_label = answer.clone();
    bad_label[12] = 0x40;
    assert_eq!(parse_dns_answer(&bad_label), None);
    let mut no_answers = answer.clone();
    no_answers[7] = 0;
    assert_eq!(parse_dns_answer(&no_answers), Some(vec![]));
}

#[test]
fn answer_section_with_two_records() {
    let query = create_dns_query("a.b", "AAAA").unwrap();
    let mut msg = vec![0u8, 0, 0x81, 0x80, 0, 1, 0, 2, 0, 0, 0, 0];
    msg.extend_from_slice(&query[12..]);
    msg.extend_from_slice(&[1, b'a', 1, b'b', 0, 0, 5, 0, 1, 0, 0, 0, 1, 0, 2, 0xc0, 0x0c]);
    msg.extend_from_slice(&[0xc0, 0x0c, 0, 28, 0, 1, 0, 0, 0, 1, 0, 16]);
    msg.extend_from_slice(&[0x20, 0x01, 0x0d, 0xb8, 0, 0, 0, 0, 0, 0, 0, 0, 0, 0, 0, 1]);
    let records = parse_dns_answer(&msg).unwrap();
    assert_eq!(records.len(), 2);
    assert_eq!(records[0], DnsRecord { rtype: 5, rdata: vec![0xc0, 0x0c] });
    assert_eq!(records[1].rtype, 28);
    assert_eq!(records[1].rdata.len(), 16);
}

#[test]
fn envelope_of_wrong_kind_is_a_decode_error() {
    let kp = key_pair(1);
    let mut s = session(&kp, None);
    s.create_request("example.com", "A").unwrap();
    assert_eq!(s.parse_response(200, &[2, 0, 3, 1, 2, 3, 0, 0]), Err(ClientError::ResponseDecodeFailed));
    let request = s.create_request("example.com", "A").unwrap();
    assert_eq!(s.parse_response(200, &request), Err(ClientError::ResponseDecodeFailed));
}
