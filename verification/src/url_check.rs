//! Which URLs the tile proxy may fetch: http(s) only, with a host and no
//! credentials, and never a private or local address other than loopback.
//! Loopback targets are fetched directly, without a proxy.

use vstd::prelude::*;
use crate::download_plan::{ascii_lower_is, eq_ascii_lower};
use crate::text::{chars_of, has_prefix, starts_with_chars, str_eq};

verus! {

/// The host of a parsed URL.
#[derive(Debug, Clone, Copy, PartialEq, Eq)]
pub enum HostKind {
    Domain,
    Ipv4([u8; 4]),
    Ipv6([u16; 8]),
}

/// What the logic reads of a parsed URL.
#[derive(Debug, Clone)]
pub struct ParsedUrl {
    pub scheme: String,
    /// The host as text (an IPv6 address in brackets).
    pub host_str: Option<String>,
    pub host: Option<HostKind>,
    pub username: String,
    pub has_password: bool,
    /// The port, or the scheme's known default port.
    pub port: Option<u16>,
}

pub struct ParsedUrlView {
    pub scheme: Seq<char>,
    pub host_str: Option<Seq<char>>,
    pub host: Option<HostKind>,
    pub username: Seq<char>,
    pub has_password: bool,
    pub port: Option<u16>,
}

impl View for ParsedUrl {
    type V = ParsedUrlView;

    open spec fn view(&self) -> ParsedUrlView {
        ParsedUrlView {
            scheme: self.scheme@,
            host_str: match self.host_str {
                Some(h) => Some(h@),
                None => None,
            },
            host: self.host,
            username: self.username@,
            has_password: self.has_password,
            port: self.port,
        }
    }
}

/// What `url::Url::parse` makes of a text (`None` when it reports an error),
/// in the fields read here.
pub uninterp spec fn url_parsed(raw: Seq<char>) -> Option<ParsedUrlView>;

/// Parses a URL with `url::Url::parse` and reads its scheme, host (as text
/// and as domain or address), user name, whether it has a password, and
/// port (or known default).
#[verifier::external_body]
fn parse_url(raw: &str) -> (r: Option<ParsedUrl>)
    ensures
        match r {
            Some(u) => url_parsed(raw@) == Some(u@),
            None => url_parsed(raw@) is None,
        },
{
    url::Url::parse(raw).ok().map(|u| ParsedUrl {
        scheme: u.scheme().to_string(),
        host_str: u.host_str().map(|h| h.to_string()),
        host: u.host().map(|h| match h {
            url::Host::Domain(_) => HostKind::Domain,
            url::Host::Ipv4(ip) => HostKind::Ipv4(ip.octets()),
            url::Host::Ipv6(ip) => HostKind::Ipv6(ip.segments()),
        }),
        username: u.username().to_string(),
        has_password: u.password().is_some(),
        port: u.port_or_known_default(),
    })
}

// ─── addresses ──────────────────────────────────────────────────────────────

/// An IP address, by its octets or segments.
#[derive(Debug, Clone, Copy, PartialEq, Eq)]
pub enum IpAddress {
    V4([u8; 4]),
    V6([u16; 8]),
}

/// IPv4 loopback (`127.0.0.0/8`).
pub open spec fn v4_loopback(o: [u8; 4]) -> bool {
    o[0] == 127
}

/// IPv4 addresses that are loopback, private (`10/8`, `172.16/12`,
/// `192.168/16`), link-local (`169.254/16`) or unspecified (`0.0.0.0`).
pub open spec fn v4_private_or_local(o: [u8; 4]) -> bool {
    ||| v4_loopback(o)
    ||| o[0] == 10
    ||| (o[0] == 172 && 16 <= o[1] <= 31)
    ||| (o[0] == 192 && o[1] == 168)
    ||| (o[0] == 169 && o[1] == 254)
    ||| (o[0] == 0 && o[1] == 0 && o[2] == 0 && o[3] == 0)
}

/// IPv6 loopback (`::1`).
pub open spec fn v6_loopback(s: [u16; 8]) -> bool {
    s[0] == 0 && s[1] == 0 && s[2] == 0 && s[3] == 0 && s[4] == 0 && s[5] == 0 && s[6] == 0 && s[7] == 1
}

/// IPv6 addresses that are loopback, unspecified (`::`), unique local
/// (`fc00::/7`) or link-local unicast (`fe80::/10`).
pub open spec fn v6_private_or_local(s: [u16; 8]) -> bool {
    ||| v6_loopback(s)
    ||| (s[0] == 0 && s[1] == 0 && s[2] == 0 && s[3] == 0 && s[4] == 0 && s[5] == 0 && s[6] == 0 && s[7] == 0)
    ||| (s[0] & 0xfe00u16) == 0xfc00u16
    ||| (s[0] & 0xffc0u16) == 0xfe80u16
}

pub open spec fn ip_loopback(a: IpAddress) -> bool {
    match a {
        IpAddress::V4(o) => v4_loopback(o),
        IpAddress::V6(s) => v6_loopback(s),
    }
}

pub open spec fn ip_private_or_local(a: IpAddress) -> bool {
    match a {
        IpAddress::V4(o) => v4_private_or_local(o),
        IpAddress::V6(s) => v6_private_or_local(s),
    }
}

/// Whether an address is loopback, private, link-local or unspecified.
pub fn is_private_or_local(addr: IpAddress) -> (r: bool)
    ensures
        r == ip_private_or_local(addr),
{
    match addr {
        IpAddress::V4(o) => {
            o[0] == 127 || o[0] == 10 || (o[0] == 172 && 16 <= o[1] && o[1] <= 31) || (o[0] == 192 && o[1] == 168)
                || (o[0] == 169 && o[1] == 254) || (o[0] == 0 && o[1] == 0 && o[2] == 0 && o[3] == 0)
        },
        IpAddress::V6(s) => {
            let zero6 = s[0] == 0 && s[1] == 0 && s[2] == 0 && s[3] == 0 && s[4] == 0 && s[5] == 0 && s[6] == 0;
            (zero6 && s[7] == 1) || (zero6 && s[7] == 0) || (s[0] & 0xfe00u16) == 0xfc00u16 || (s[0] & 0xffc0u16)
                == 0xfe80u16
        },
    }
}

fn is_loopback_ip(addr: IpAddress) -> (r: bool)
    ensures
        r == ip_loopback(addr),
{
    match addr {
        IpAddress::V4(o) => o[0] == 127,
        IpAddress::V6(s) => s[0] == 0 && s[1] == 0 && s[2] == 0 && s[3] == 0 && s[4] == 0 && s[5] == 0 && s[6] == 0
            && s[7] == 1,
    }
}

// ─── classifying a URL ──────────────────────────────────────────────────────

/// Why a URL may not be fetched.
#[derive(Debug, Clone, Copy, PartialEq, Eq, Structural)]
pub enum UrlRejection {
    /// The URL does not parse.
    Invalid,
    /// Neither `http` nor `https`.
    Scheme,
    /// No host, or a user name or password in the URL.
    HostOrCredentials,
    /// A literal private or local address other than loopback.
    PrivateAddress,
}

/// A URL that may be fetched, and whether it points at this machine.
#[derive(Debug, Clone)]
pub struct UrlClass {
    pub url: ParsedUrl,
    pub is_loopback: bool,
}

/// The literal address of a host, if it is one.
pub open spec fn literal_ip(h: Option<HostKind>) -> Option<IpAddress> {
    match h {
        Some(HostKind::Ipv4(o)) => Some(IpAddress::V4(o)),
        Some(HostKind::Ipv6(s)) => Some(IpAddress::V6(s)),
        _ => None,
    }
}

/// A host text that names this machine: `localhost` (any ASCII case),
/// `127.0.0.1`, `::1`, `[::1]`, or anything starting with `127.`.
pub open spec fn loopback_host(h: Seq<char>) -> bool {
    ascii_lower_is(h, "localhost"@) || h == "127.0.0.1"@ || h == "::1"@ || h == "[::1]"@ || has_prefix(h, "127."@)
}

/// The classification of a parsed URL.
pub open spec fn classify(u: ParsedUrlView) -> Result<bool, UrlRejection> {
    let host = match u.host_str {
        Some(h) => h,
        None => Seq::empty(),
    };
    if !(u.scheme == "http"@ || u.scheme == "https"@) {
        Err(UrlRejection::Scheme)
    } else if host.len() == 0 || u.username.len() > 0 || u.has_password {
        Err(UrlRejection::HostOrCredentials)
    } else if literal_ip(u.host) matches Some(ip) && ip_private_or_local(ip) && !ip_loopback(ip) {
        Err(UrlRejection::PrivateAddress)
    } else {
        Ok(loopback_host(host))
    }
}

/// Classifies a URL for the tile proxy.
pub fn classify_url(raw: &str) -> (r: Result<UrlClass, UrlRejection>)
    ensures
        match url_parsed(raw@) {
            None => r == Err::<UrlClass, UrlRejection>(UrlRejection::Invalid),
            Some(u) => match classify(u) {
                Ok(lb) => r matches Ok(c) && c.url@ == u && c.is_loopback == lb,
                Err(e) => r == Err::<UrlClass, UrlRejection>(e),
            },
        },
{
    let url = match parse_url(raw) {
        Some(u) => u,
        None => return Err(UrlRejection::Invalid),
    };
    if !(str_eq(url.scheme.as_str(), "http") || str_eq(url.scheme.as_str(), "https")) {
        return Err(UrlRejection::Scheme);
    }
    let host = match &url.host_str {
        Some(h) => chars_of(h.as_str()),
        None => Vec::new(),
    };
    if host.len() == 0 || url.username.unicode_len() > 0 || url.has_password {
        return Err(UrlRejection::HostOrCredentials);
    }
    let literal = match url.host {
        Some(HostKind::Ipv4(o)) => Some(IpAddress::V4(o)),
        Some(HostKind::Ipv6(s)) => Some(IpAddress::V6(s)),
        _ => None,
    };
    match literal {
        Some(ip) => {
            if is_private_or_local(ip) && !is_loopback_ip(ip) {
                return Err(UrlRejection::PrivateAddress);
            }
        },
        None => {},
    }
    let hs = crate::text::string_of(&host);
    let is_loopback = eq_ascii_lower(hs.as_str(), "localhost") || str_eq(hs.as_str(), "127.0.0.1")
        || str_eq(hs.as_str(), "::1") || str_eq(hs.as_str(), "[::1]") || starts_with_chars(&host, &chars_of("127."));
    Ok(UrlClass { url, is_loopback })
}

/// Loopback hosts are never refused as private, and a refused URL is
/// never classified as loopback.
pub proof fn lemma_loopback_not_refused(u: ParsedUrlView)
    ensures
        classify(u) matches Err(UrlRejection::PrivateAddress) ==> !(literal_ip(u.host) matches Some(ip) && ip_loopback(ip)),
{
}

} // verus!
