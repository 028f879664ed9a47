//! Where a request goes: the pool key of its URI, the server name and port of
//! an HTTP/3 connection, and the transport of an HTTP/1 or HTTP/2 one.
use crate::pool::{domain_key, PoolError, PoolKey};
use crate::text::{chars_of, same_chars, string_of, strip_back, strip_end, strip_front, strip_start, Strip};
use http::Uri;
use vstd::prelude::*;

verus! {

#[verifier::external_type_specification]
#[verifier::external_body]
pub struct ExUri(Uri);

/// The scheme of a URI, as `Uri::scheme_str` reads it.
pub uninterp spec fn uri_scheme(u: Uri) -> Option<Seq<char>>;

/// The authority of a URI, as `Uri::authority` and `Authority::as_str` read
/// it.
pub uninterp spec fn uri_authority(u: Uri) -> Option<Seq<char>>;

/// The host of a URI, as `Uri::host` reads it.
pub uninterp spec fn uri_host(u: Uri) -> Option<Seq<char>>;

/// The port of a URI, as `Uri::port_u16` reads it.
pub uninterp spec fn uri_port(u: Uri) -> Option<u16>;

/// Relies on `Uri::scheme_str`: the scheme of the URI, if it has one; it
/// depends on the URI alone.
#[verifier::external_body]
fn scheme_of(uri: &Uri) -> (r: Option<String>)
    ensures
        r matches Some(s) ==> uri_scheme(*uri) == Some(s@),
        r is None ==> uri_scheme(*uri) is None,
{
    match uri.scheme_str() {
        Some(s) => Some(s.to_string()),
        None => None,
    }
}

/// Relies on `Uri::authority` and `Authority::as_str`: the authority of the
/// URI, if it has one; it depends on the URI alone, and `authority` gives
/// `None` for an empty one.
#[verifier::external_body]
fn authority_of(uri: &Uri) -> (r: Option<String>)
    ensures
        r matches Some(a) ==> a@.len() > 0 && uri_authority(*uri) == Some(a@),
        r is None ==> uri_authority(*uri) is None,
{
    match uri.authority() {
        Some(a) => Some(a.as_str().to_string()),
        None => None,
    }
}

/// Relies on `Uri::host`: the host of the URI's authority, if it has one;
/// it depends on the URI alone.
#[verifier::external_body]
fn host_of(uri: &Uri) -> (r: Option<String>)
    ensures
        r matches Some(h) ==> uri_host(*uri) == Some(h@),
        r is None ==> uri_host(*uri) is None,
{
    match uri.host() {
        Some(h) => Some(h.to_string()),
        None => None,
    }
}

/// Relies on `Uri::port_u16`: the port of the URI's authority, if it has
/// one; it depends on the URI alone.
#[verifier::external_body]
fn port_of(uri: &Uri) -> (r: Option<u16>)
    ensures
        r == uri_port(*uri),
{
    uri.port_u16()
}

/// The pool key of a request URI: its scheme and authority; fails when
/// either is missing.
pub fn extract_domain(uri: &Uri) -> (r: Result<PoolKey, PoolError>)
    ensures
        r is Ok <==> (uri_scheme(*uri) is Some && uri_authority(*uri) is Some),
        r matches Ok(k) ==> uri_scheme(*uri) == Some(k.scheme@) && uri_authority(*uri) == Some(
            k.authority@,
        ),
        r is Err ==> r == Err::<PoolKey, PoolError>(PoolError::MissingDomain),
{
    domain_key(scheme_of(uri), authority_of(uri))
}

/// The port of an HTTP/3 connection when the URI names none.
pub const H3_DEFAULT_PORT: u16 = 443;

/// The name to present to the server: the host without the brackets of an
/// IPv6 literal.
pub open spec fn server_name_of(host: Seq<char>) -> Seq<char> {
    strip_back(strip_front(host, Strip::OpenBracket), Strip::CloseBracket)
}

/// `host` without leading `[` and trailing `]`.
pub fn server_name(host: &str) -> (r: String)
    ensures
        r@ == server_name_of(host@),
{
    let cs = chars_of(host);
    let inner = strip_end(&strip_start(&cs, Strip::OpenBracket), Strip::CloseBracket);
    string_of(&inner)
}

/// Server name and port of an HTTP/3 connection to a host and optional port.
pub fn h3_target(host: Option<String>, port: Option<u16>) -> (r: Option<(String, u16)>)
    ensures
        host is None ==> r is None,
        host matches Some(h) ==> r matches Some(t) && t.0@ == server_name_of(h@) && t.1 == (
        match port {
            Some(p) => p,
            None => H3_DEFAULT_PORT,
        }),
{
    match host {
        None => None,
        Some(h) => {
            let name = server_name(h.as_str());
            let p = match port {
                Some(p) => p,
                None => H3_DEFAULT_PORT,
            };
            Some((name, p))
        },
    }
}

/// Server name and port of an HTTP/3 connection to `dest`; `None` when it
/// has no host.
pub fn h3_destination(dest: &Uri) -> (r: Option<(String, u16)>)
    ensures
        uri_host(*dest) is None ==> r is None,
        uri_host(*dest) matches Some(h) ==> r matches Some(t) && t.0@ == server_name_of(h) && t.1
            == (match uri_port(*dest) {
            Some(p) => p,
            None => H3_DEFAULT_PORT,
        }),
{
    h3_target(host_of(dest), port_of(dest))
}

/// Why no transport connection can be made.
#[derive(Debug, PartialEq, Eq)]
pub enum TransportError {
    /// A scheme other than `http` and `https`.
    BadScheme(String),
    /// The URI has no host.
    MissingHost,
}

/// Where an HTTP/1 or HTTP/2 connection goes, and whether over TLS.
#[derive(Debug, PartialEq, Eq)]
pub struct Transport {
    pub host: String,
    pub port: u16,
    pub tls: bool,
}

pub open spec fn http_word() -> Seq<char> {
    seq!['h', 't', 't', 'p']
}

pub open spec fn https_word() -> Seq<char> {
    seq!['h', 't', 't', 'p', 's']
}

/// The default port of a scheme, `None` for a scheme that is not served.
pub open spec fn default_port(scheme: Seq<char>) -> Option<u16> {
    if scheme == http_word() {
        Some(80)
    } else if scheme == https_word() {
        Some(443)
    } else {
        None
    }
}

/// Whether `r` is the transport for a scheme (`http` when absent), host and
/// port: a scheme without a default port is refused, then a missing host.
pub open spec fn transport_chosen(
    scheme: Option<Seq<char>>,
    host: Option<Seq<char>>,
    port: Option<u16>,
    r: Result<Transport, TransportError>,
) -> bool {
    let sc = match scheme {
        Some(s) => s,
        None => http_word(),
    };
    &&& default_port(sc) is None ==> (r matches Err(TransportError::BadScheme(b)) && b@ == sc)
    &&& default_port(sc) is Some && host is None ==> r == Err::<Transport, TransportError>(
        TransportError::MissingHost,
    )
    &&& default_port(sc) is Some && host is Some ==> (r matches Ok(t) && t.host@ == host->0 && t.tls
        == (sc == https_word()) && t.port == match port {
        Some(p) => p,
        None => default_port(sc)->0,
    })
}

/// The transport for a scheme (`http` when absent), host and port.
pub fn transport_target(scheme: Option<String>, host: Option<String>, port: Option<u16>) -> (r: Result<
    Transport,
    TransportError,
>)
    ensures
        transport_chosen(
            match scheme {
                Some(s) => Some(s@),
                None => None,
            },
            match host {
                Some(h) => Some(h@),
                None => None,
            },
            port,
            r,
        ),
{
    let sc = match scheme {
        Some(s) => chars_of(s.as_str()),
        None => vec!['h', 't', 't', 'p'],
    };
    let tls = if same_chars(&sc, &['h', 't', 't', 'p']) {
        false
    } else if same_chars(&sc, &['h', 't', 't', 'p', 's']) {
        true
    } else {
        return Err(TransportError::BadScheme(string_of(&sc)));
    };
    let host = match host {
        Some(h) => h,
        None => {
            return Err(TransportError::MissingHost);
        },
    };
    let port = match port {
        Some(p) => p,
        None => if tls {
            443
        } else {
            80
        },
    };
    Ok(Transport { host, port, tls })
}

/// The transport for a request URI.
pub fn transport_of(uri: &Uri) -> (r: Result<Transport, TransportError>)
    ensures
        transport_chosen(uri_scheme(*uri), uri_host(*uri), uri_port(*uri), r),
{
    transport_target(scheme_of(uri), host_of(uri), port_of(uri))
}

/// Whether the protocol negotiated by ALPN is HTTP/2.
pub fn negotiated_h2(alpn: Option<Vec<u8>>) -> (r: bool)
    ensures
        r == (alpn matches Some(v) && v@ == seq![0x68u8, 0x32u8]),
{
    match alpn {
        Some(v) => {
            let r = v.len() == 2 && v[0] == 0x68u8 && v[1] == 0x32u8;
            assert(r ==> v@ =~= seq![0x68u8, 0x32u8]);
            r
        },
        None => false,
    }
}

} // verus!
