//! The candidate model: one proxy endpoint with its anonymity and scheme.

use vstd::prelude::*;
use vstd::string::StringExecFns;
use crate::addr::{endpoint_key, pack, parse_ipv4, parse_port, read_ipv4, read_port};
use crate::endpoint::{endpoint_text, format_endpoint, push_decimal, push_ipv4};
use crate::text::{contains_char, contains_text, has_substring, to_chars};

verus! {

/// How much a proxy hides of its client.
#[derive(Debug, Clone, Copy, PartialEq, Eq, Structural)]
pub enum AnonymityLevel {
    /// The proxy passes the client's address on.
    Transparent,
    /// The proxy hides the client's address but shows that it is a proxy.
    Anonymous,
    /// The proxy hides both.
    Elite,
}

/// The mark of an elite proxy in a listing: the character U+9AD8.
pub open spec fn elite_mark() -> char {
    '\u{9ad8}'
}

/// The mark of an anonymous proxy in a listing: the character U+666E.
pub open spec fn anonymous_mark() -> char {
    '\u{666e}'
}

/// The anonymity that a listing's text stands for. The elite mark wins over
/// the anonymous mark; a text with neither stands for a transparent proxy.
pub open spec fn anonymity_of(s: Seq<char>) -> AnonymityLevel {
    if s.contains(elite_mark()) {
        AnonymityLevel::Elite
    } else if s.contains(anonymous_mark()) {
        AnonymityLevel::Anonymous
    } else {
        AnonymityLevel::Transparent
    }
}

impl AnonymityLevel {
    /// Reads the anonymity from a listing's text. Every text has a reading.
    pub fn from_str(s: &str) -> (level: AnonymityLevel)
        ensures
            level == anonymity_of(s@),
    {
        let chars = to_chars(s);
        if contains_char(&chars, '\u{9ad8}') {
            AnonymityLevel::Elite
        } else if contains_char(&chars, '\u{666e}') {
            AnonymityLevel::Anonymous
        } else {
            AnonymityLevel::Transparent
        }
    }
}

/// The scheme that a proxy serves.
#[derive(Debug, Clone, Copy, PartialEq, Eq, Structural)]
pub enum SslType {
    HTTP,
    HTTPS,
}

/// The text `HTTPS`.
pub open spec fn https_upper() -> Seq<char> {
    seq!['H', 'T', 'T', 'P', 'S']
}

/// The text `https`.
pub open spec fn https_lower() -> Seq<char> {
    seq!['h', 't', 't', 'p', 's']
}

/// The scheme that a listing's text stands for: HTTPS where the text holds
/// `HTTPS` or `https`, HTTP otherwise.
pub open spec fn ssl_type_of(s: Seq<char>) -> SslType {
    if has_substring(s, https_upper()) || has_substring(s, https_lower()) {
        SslType::HTTPS
    } else {
        SslType::HTTP
    }
}

impl SslType {
    /// Reads the scheme from a listing's text. Every text has a reading.
    pub fn from_str(s: &str) -> (ssl_type: SslType)
        ensures
            ssl_type == ssl_type_of(s@),
    {
        let chars = to_chars(s);
        let upper: Vec<char> = vec!['H', 'T', 'T', 'P', 'S'];
        let lower: Vec<char> = vec!['h', 't', 't', 'p', 's'];
        assert(upper@ =~= https_upper());
        assert(lower@ =~= https_lower());
        if contains_text(&chars, &upper) || contains_text(&chars, &lower) {
            SslType::HTTPS
        } else {
            SslType::HTTP
        }
    }
}

/// Why a listing's entry is no proxy.
#[derive(Debug, Clone, Copy, PartialEq, Eq, Structural)]
pub enum ProxyError {
    /// The address is no dotted quad.
    BadIp,
    /// The port is no number from 1 to 65535.
    BadPort,
}

impl ProxyError {
    /// A line of text for a log.
    pub fn message(&self) -> (text: &'static str)
        ensures
            text@ == match *self {
                ProxyError::BadIp => "invalid IPv4 address"@,
                ProxyError::BadPort => "invalid port"@,
            },
    {
        match self {
            ProxyError::BadIp => "invalid IPv4 address",
            ProxyError::BadPort => "invalid port",
        }
    }
}

/// One proxy endpoint. Two proxies are the same proxy when they have the
/// same address and port, whatever their anonymity and scheme.
#[derive(Debug, Clone, Copy)]
pub struct Proxy {
    /// The address, the first octet in the highest byte.
    pub ip: u32,
    /// The port.
    pub port: u16,
    /// How much the proxy hides of its client.
    pub anonymity: AnonymityLevel,
    /// The scheme that the proxy serves.
    pub ssl_type: SslType,
}

/// What the four texts of a listing's entry read as: a proxy, or the reason
/// why they are none. The address is looked at first.
pub open spec fn parse_entry(
    ip: Seq<char>,
    port: Seq<char>,
    anonymity: Seq<char>,
    ssl_type: Seq<char>,
) -> Result<Proxy, ProxyError> {
    match (parse_ipv4(ip), parse_port(port)) {
        (None, _) => Err(ProxyError::BadIp),
        (Some(_), None) => Err(ProxyError::BadPort),
        (Some(ip), Some(port)) => Ok(
            Proxy {
                ip,
                port,
                anonymity: anonymity_of(anonymity),
                ssl_type: ssl_type_of(ssl_type),
            },
        ),
    }
}

impl Proxy {
    /// The endpoint key, by which a pool tells proxies apart.
    pub open spec fn key(&self) -> u64 {
        endpoint_key(self.ip, self.port)
    }

    /// Reads a proxy from the four texts of a listing's entry. An entry with
    /// a bad address and a bad port is refused for its address.
    pub fn new(ip: &str, port: &str, anonymity: &str, ssl_type: &str) -> (r: Result<
        Proxy,
        ProxyError,
    >)
        ensures
            r == parse_entry(ip@, port@, anonymity@, ssl_type@),
    {
        let ip_chars = to_chars(ip);
        let ip = match read_ipv4(&ip_chars) {
            Some(ip) => ip,
            None => {
                return Err(ProxyError::BadIp);
            },
        };
        let port_chars = to_chars(port);
        let port = match read_port(&port_chars) {
            Some(port) => port,
            None => {
                return Err(ProxyError::BadPort);
            },
        };
        Ok(
            Proxy {
                ip,
                port,
                anonymity: AnonymityLevel::from_str(anonymity),
                ssl_type: SslType::from_str(ssl_type),
            },
        )
    }

    /// The address, the first octet in the highest byte.
    pub fn ip(&self) -> (ip: u32)
        ensures
            ip == self.ip,
    {
        self.ip
    }

    /// The port.
    pub fn port(&self) -> (port: u16)
        ensures
            port == self.port,
    {
        self.port
    }

    /// The anonymity.
    pub fn anonymity(&self) -> (anonymity: AnonymityLevel)
        ensures
            anonymity == self.anonymity,
    {
        self.anonymity
    }

    /// The scheme.
    pub fn ssl_type(&self) -> (ssl_type: SslType)
        ensures
            ssl_type == self.ssl_type,
    {
        self.ssl_type
    }

    /// The endpoint key.
    #[verifier::when_used_as_spec(key)]
    pub fn get_key(&self) -> (key: u64)
        ensures
            key == self.key(),
    {
        self.ip as u64 * 65536 + self.port as u64
    }

    /// The endpoint as `address:port`, the form under which the pool's file
    /// keeps its counters.
    pub fn key_text(&self) -> (text: String)
        ensures
            text@ == endpoint_text(self.ip, self.port),
    {
        format_endpoint(self.ip, self.port)
    }

    /// The address under which a client reaches the proxy:
    /// `http://address:port`.
    pub fn url(&self) -> (text: String)
        ensures
            text@ == "http://"@ + endpoint_text(self.ip, self.port),
    {
        proof {
            reveal_strlit(":");
        }
        let mut text = String::from_str("http://");
        push_ipv4(&mut text, self.ip);
        text.append(":");
        push_decimal(&mut text, self.port as u32);
        assert(text@ =~= "http://"@ + endpoint_text(self.ip, self.port));
        text
    }

    /// The four octets of the address, the first one first.
    pub fn octets(&self) -> (o: [u8; 4])
        ensures
            pack(o[0], o[1], o[2], o[3]) == self.ip,
            o[0] == self.ip / 16777216,
            o[1] == self.ip / 65536 % 256,
            o[2] == self.ip / 256 % 256,
            o[3] == self.ip % 256,
    {
        let ip = self.ip;
        [(ip / 16777216) as u8, (ip / 65536 % 256) as u8, (ip / 256 % 256) as u8, (ip % 256) as u8]
    }
}

impl PartialEq for Proxy {
    fn eq(&self, other: &Proxy) -> (same: bool) {
        self.ip == other.ip && self.port == other.port
    }
}

impl vstd::std_specs::cmp::PartialEqSpecImpl for Proxy {
    open spec fn obeys_eq_spec() -> bool {
        true
    }

    open spec fn eq_spec(&self, other: &Proxy) -> bool {
        self.key() == other.key()
    }
}

} // verus!
