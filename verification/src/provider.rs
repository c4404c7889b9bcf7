//! The RPC provider's URL and the address of the local TCP proxy, both read
//! with the `url` crate.
use vstd::prelude::*;
use vstd::string::StringExecFns;

use crate::text::{
    decimal_value, host_port, is_decimal_digits, join_host_port, law_host_port_parts, same_text,
};

verus! {

#[verifier::external_type_specification]
#[verifier::external_body]
pub struct ExUrlParseError(url::ParseError);

/// The parts of a parsed URL that this library reads.
pub struct UrlParts {
    /// The scheme, without the `:`.
    pub scheme: String,
    /// The host, if the URL has one.
    pub host: Option<String>,
    /// The port, when the URL names one other than its scheme's default.
    pub port: Option<u16>,
    /// The path.
    pub path: String,
}

/// The parts of a URL as plain values: scheme, host, port, path.
pub type UrlPartsModel = (Seq<char>, Option<Seq<char>>, Option<u16>, Seq<char>);

impl View for UrlParts {
    type V = UrlPartsModel;

    open spec fn view(&self) -> UrlPartsModel {
        (
            self.scheme@,
            match self.host {
                Some(h) => Some(h@),
                None => None,
            },
            self.port,
            self.path@,
        )
    }
}

/// What `url::Url::parse` makes of `input`: `None` where it fails, else the
/// scheme, host, port and path of the parsed URL.
pub uninterp spec fn parsed_url(input: Seq<char>) -> Option<UrlPartsModel>;

/// `url::Url::parse` followed by `scheme`, `host_str`, `port` and `path` on
/// the parsed URL. Claims only that the outcome is the one `parsed_url` names
/// for the input; what the parser accepts and how it normalises is not
/// restated here.
#[verifier::external_body]
pub(crate) fn parse_url(input: &str) -> (res: Result<UrlParts, url::ParseError>)
    ensures
        res is Ok <==> parsed_url(input@) is Some,
        res matches Ok(parts) ==> parsed_url(input@) == Some(parts@),
{
    url::Url::parse(input).map(|u| UrlParts {
        scheme: u.scheme().to_string(),
        host: u.host_str().map(|h| h.to_string()),
        port: u.port(),
        path: u.path().to_string(),
    })
}

/// The text `https`.
pub open spec fn https_scheme() -> Seq<char> {
    seq!['h', 't', 't', 'p', 's']
}

/// The port used when the URL names none: 443 for `https`, 80 otherwise.
pub open spec fn default_port(scheme: Seq<char>) -> u16 {
    if scheme == https_scheme() {
        443
    } else {
        80
    }
}

/// The provider URL as plain values: full host (`host:port`), host, port,
/// path, scheme.
pub type ProviderModel = (Seq<char>, Seq<char>, u16, Seq<char>, Seq<char>);

/// The provider read from URL parts that have a host.
pub open spec fn spec_provider(parts: UrlPartsModel) -> ProviderModel
    recommends
        parts.1 is Some,
{
    let (scheme, host, port, path) = parts;
    let host = host->0;
    let port = match port {
        Some(p) => p,
        None => default_port(scheme),
    };
    (host_port(host, port), host, port, path, scheme)
}

/// An RPC provider's endpoint, as the tunnel needs it.
#[derive(Debug, Clone)]
pub struct RpcProviderUrl {
    /// `host:port`.
    pub full_host: String,
    pub host: String,
    pub port: u16,
    pub path: String,
    pub scheme: String,
}

impl View for RpcProviderUrl {
    type V = ProviderModel;

    open spec fn view(&self) -> ProviderModel {
        (self.full_host@, self.host@, self.port, self.path@, self.scheme@)
    }
}

impl RpcProviderUrl {
    /// The provider read from parsed URL parts: `None` when the URL has no
    /// host. A missing port becomes 443 for `https` and 80 otherwise.
    pub fn from_parts(parts: UrlParts) -> (res: Option<RpcProviderUrl>)
        ensures
            res is Some <==> parts@.1 is Some,
            res matches Some(p) ==> p@ == spec_provider(parts@),
    {
        let UrlParts { scheme, host, port, path } = parts;
        let host = match host {
            Some(h) => h,
            None => {
                return None;
            },
        };
        let https: &str = "https";
        proof {
            reveal_strlit("https");
            assert(https@ =~= https_scheme());
        }
        let default = if same_text(scheme.as_str(), https) {
            443u16
        } else {
            80u16
        };
        let port = match port {
            Some(p) => p,
            None => default,
        };
        let full_host = join_host_port(host.as_str(), port);
        Some(RpcProviderUrl { full_host, host, port, path, scheme })
    }

    /// Reads a provider URL, or `None` when it does not parse or has no host.
    pub fn try_new(rpc_provider_url: &str) -> (res: Option<RpcProviderUrl>)
        ensures
            res is Some <==> (parsed_url(rpc_provider_url@) matches Some(parts) && parts.1 is Some),
            res matches Some(p) ==> p@ == spec_provider(parsed_url(rpc_provider_url@)->0),
    {
        match parse_url(rpc_provider_url) {
            Ok(parts) => {
                if parts.host.is_some() {
                    Some(RpcProviderUrl::new(rpc_provider_url))
                } else {
                    None
                }
            },
            Err(_) => None,
        }
    }

    /// Reads a provider URL that parses and has a host.
    pub fn new(rpc_provider_url: &str) -> (res: RpcProviderUrl)
        requires
            parsed_url(rpc_provider_url@) matches Some(parts) && parts.1 is Some,
        ensures
            res@ == spec_provider(parsed_url(rpc_provider_url@)->0),
    {
        let parsed = parse_url(rpc_provider_url);
        let provider = match parsed {
            Ok(parts) => RpcProviderUrl::from_parts(parts),
            Err(_) => None,
        };
        match provider {
            Some(p) => p,
            None => {
                proof {
                    assert(false);
                }
                RpcProviderUrl {
                    full_host: String::new(),
                    host: String::new(),
                    port: 0,
                    path: String::new(),
                    scheme: String::new(),
                }
            },
        }
    }

    /// The URL that requests to the provider go to: scheme, `://`, full
    /// host, path.
    pub fn upstream_url(&self) -> (url: String)
        ensures
            url@ == self.scheme@ + seq![':', '/', '/'] + self.full_host@ + self.path@,
    {
        let mut url = self.scheme.clone();
        let sep: &str = "://";
        proof {
            reveal_strlit("://");
            assert(sep@ =~= seq![':', '/', '/']);
        }
        url.append(sep);
        url.append(self.full_host.as_str());
        url.append(self.path.as_str());
        url
    }
}

/// Why the local TCP proxy's address could not be read.
pub enum TcpProxyAddressError {
    /// `http://` followed by the configured address is not a URL.
    InvalidUrl(url::ParseError),
}

/// The text `http://`.
pub open spec fn http_prefix() -> Seq<char> {
    seq!['h', 't', 't', 'p', ':', '/', '/']
}

/// The host used when the TCP proxy's URL has none.
pub open spec fn loopback_host() -> Seq<char> {
    seq!['1', '2', '7', '.', '0', '.', '0', '.', '1']
}

/// The address (`host:port`) of the TCP proxy read from URL parts: the host,
/// or `127.0.0.1` when there is none, and the port, or 8080 when the URL
/// names none.
pub open spec fn spec_tcp_proxy_address(parts: UrlPartsModel) -> Seq<char> {
    let host = match parts.1 {
        Some(h) => h,
        None => loopback_host(),
    };
    let port: u16 = match parts.2 {
        Some(p) => p,
        None => 8080,
    };
    host_port(host, port)
}

/// The TCP proxy's address (`host:port`) from the parts of its URL: the
/// host, or `127.0.0.1` when there is none, and the port, or 8080 when the
/// URL names none.
pub fn tcp_proxy_address_from_parts(parts: &UrlParts) -> (address: String)
    ensures
        address@ == spec_tcp_proxy_address(parts@),
{
    let port = match parts.port {
        Some(p) => p,
        None => 8080u16,
    };
    match &parts.host {
        Some(h) => join_host_port(h.as_str(), port),
        None => {
            let loopback: &str = "127.0.0.1";
            proof {
                reveal_strlit("127.0.0.1");
                assert(loopback@ =~= loopback_host());
            }
            join_host_port(loopback, port)
        },
    }
}

/// The socket address (`host:port`) that requests for the provider's host
/// are sent to: the configured TCP proxy URL read as an `http` URL.
pub fn tcp_proxy_address(tcp_proxy_url: &str) -> (res: Result<String, TcpProxyAddressError>)
    ensures
        res is Ok <==> parsed_url(http_prefix() + tcp_proxy_url@) is Some,
        res matches Ok(a) ==> a@ == spec_tcp_proxy_address(
            parsed_url(http_prefix() + tcp_proxy_url@)->0,
        ),
{
    let prefix: &str = "http://";
    proof {
        reveal_strlit("http://");
        assert(prefix@ =~= http_prefix());
    }
    let mut full = String::from_str(prefix);
    full.append(tcp_proxy_url);
    match parse_url(full.as_str()) {
        Ok(parts) => Ok(tcp_proxy_address_from_parts(&parts)),
        Err(e) => Err(TcpProxyAddressError::InvalidUrl(e)),
    }
}

/// Law: the full host of a provider is its host, a colon, and the decimal
/// digits of its port; the host is the URL's host, and the port is the URL's
/// port when it names one.
pub proof fn law_provider_full_host(parts: UrlPartsModel)
    requires
        parts.1 is Some,
    ensures
        ({
            let (full_host, host, port, path, scheme) = spec_provider(parts);
            &&& host == parts.1->0
            &&& path == parts.3
            &&& scheme == parts.0
            &&& (parts.2 matches Some(p) ==> port == p)
            &&& (parts.2 is None && parts.0 == seq!['h', 't', 't', 'p', 's'] ==> port == 443)
            &&& (parts.2 is None && parts.0 != seq!['h', 't', 't', 'p', 's'] ==> port == 80)
            &&& full_host.subrange(0, host.len() as int) == host
            &&& full_host[host.len() as int] == ':'
            &&& is_decimal_digits(full_host.subrange(host.len() + 1int, full_host.len() as int))
            &&& decimal_value(full_host.subrange(host.len() + 1int, full_host.len() as int))
                == port
        }),
{
    let p = spec_provider(parts);
    law_host_port_parts(p.1, p.2);
}

/// Law: the TCP proxy's address is the URL's host when it has one, and
/// `127.0.0.1` only when it has none, followed by a colon and the decimal
/// digits of the URL's port, or of 8080 when it names none.
pub proof fn law_tcp_proxy_address_parts(parts: UrlPartsModel)
    ensures
        ({
            let address = spec_tcp_proxy_address(parts);
            let host = match parts.1 {
                Some(h) => h,
                None => seq!['1', '2', '7', '.', '0', '.', '0', '.', '1'],
            };
            let port: int = match parts.2 {
                Some(p) => p as int,
                None => 8080,
            };
            &&& address.subrange(0, host.len() as int) == host
            &&& address[host.len() as int] == ':'
            &&& is_decimal_digits(address.subrange(host.len() + 1int, address.len() as int))
            &&& decimal_value(address.subrange(host.len() + 1int, address.len() as int)) == port
        }),
{
    let host = match parts.1 {
        Some(h) => h,
        None => loopback_host(),
    };
    let port: u16 = match parts.2 {
        Some(p) => p,
        None => 8080,
    };
    law_host_port_parts(host, port);
}

} // verus!
