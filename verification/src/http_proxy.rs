//! Decisions of the local HTTP proxy: which requests are answered at once,
//! where the others go, which response headers pass through, and what the
//! client sees when the tunnel fails.
use vstd::prelude::*;
use vstd::string::StringExecFns;
use vstd::utf8::is_ascii_chars;

use crate::provider::RpcProviderUrl;
use crate::text::same_text;

verus! {

/// `Clone::clone` on a `Duration`: a copy of the same length of time.
pub assume_specification[ <std::time::Duration as Clone>::clone ](
    duration: &std::time::Duration,
) -> (copy: std::time::Duration)
    ensures
        copy == *duration,
;

/// Configuration of the local HTTP proxy.
#[derive(Clone)]
pub struct ProxyConfig {
    /// Address to listen on (typically 127.0.0.1).
    pub listen_address: String,
    /// Port to listen on (typically 8545 for RPC).
    pub listen_port: u16,
    /// Address of the TCP proxy that requests are forwarded to.
    pub tcp_proxy_url: String,
    /// How long a request to the provider may take.
    pub timeout: std::time::Duration,
    /// The RPC provider.
    pub rpc_provider_url: RpcProviderUrl,
}

/// The hop-by-hop headers, which a proxy must not forward.
pub open spec fn hop_by_hop_headers() -> Set<Seq<char>> {
    set![
        "connection"@,
        "keep-alive"@,
        "proxy-authenticate"@,
        "proxy-authorization"@,
        "te"@,
        "trailers"@,
        "transfer-encoding"@,
        "upgrade"@,
    ]
}

/// Law: a response header is withheld exactly when its lower-case name is one
/// of the eight hop-by-hop headers `connection`, `keep-alive`,
/// `proxy-authenticate`, `proxy-authorization`, `te`, `trailers`,
/// `transfer-encoding` and `upgrade`; every other header (such as
/// `content-encoding`) is forwarded.
pub proof fn law_withheld_headers(lower_name: Seq<char>)
    ensures
        hop_by_hop_headers().contains(lower_name) <==> (lower_name == "connection"@
            || lower_name == "keep-alive"@ || lower_name == "proxy-authenticate"@ || lower_name
            == "proxy-authorization"@ || lower_name == "te"@ || lower_name == "trailers"@
            || lower_name == "transfer-encoding"@ || lower_name == "upgrade"@),
{
}

/// Whether a (lower-case) header name is a hop-by-hop header that should not
/// be forwarded.
pub fn is_hop_by_hop_header(header_name: &str) -> (hop: bool)
    ensures
        hop == hop_by_hop_headers().contains(header_name@),
{
    let hop = same_text(header_name, "connection") || same_text(header_name, "keep-alive")
        || same_text(header_name, "proxy-authenticate") || same_text(
        header_name,
        "proxy-authorization",
    ) || same_text(header_name, "te") || same_text(header_name, "trailers") || same_text(
        header_name,
        "transfer-encoding",
    ) || same_text(header_name, "upgrade");
    hop
}

/// The Unicode lower-case form of a text, as `str::to_lowercase` computes it.
pub uninterp spec fn lowercase(text: Seq<char>) -> Seq<char>;

/// The lower-case form of an ASCII character: `A`-`Z` become `a`-`z`, every
/// other character stays.
pub open spec fn ascii_lower_char(c: char) -> char {
    if 'A' <= c <= 'Z' {
        ((c as u32) + 32) as char
    } else {
        c
    }
}

/// The lower-case form of an ASCII text, character by character.
pub open spec fn ascii_lowercase(text: Seq<char>) -> Seq<char> {
    text.map_values(|c: char| ascii_lower_char(c))
}

/// `str::to_lowercase`. The result is the one `lowercase` names for the
/// text; for ASCII text it maps `A`-`Z` to `a`-`z` and keeps every other
/// character, as the Unicode case mapping does on ASCII. The mapping of other
/// characters is not restated here.
#[verifier::external_body]
fn to_lowercase(text: &str) -> (res: String)
    ensures
        res@ == lowercase(text@),
        is_ascii_chars(text@) ==> res@ == ascii_lowercase(text@),
{
    text.to_lowercase()
}

/// Whether a header of the provider's response is passed on to the client:
/// all but the hop-by-hop headers, compared in lower case.
pub fn forward_response_header(header_name: &str) -> (forward: bool)
    ensures
        forward == !hop_by_hop_headers().contains(lowercase(header_name@)),
        is_ascii_chars(header_name@) ==> forward == !hop_by_hop_headers().contains(
            ascii_lowercase(header_name@),
        ),
{
    let lower = to_lowercase(header_name);
    !is_hop_by_hop_header(lower.as_str())
}

/// An answer that the proxy gives without asking the provider.
pub struct ProxyResponse {
    /// HTTP status code.
    pub status: u16,
    /// Whether the body is sent as `application/json`.
    pub json_content_type: bool,
    pub body: String,
}

/// The answer to a CORS preflight (`OPTIONS`) request, or `None` for any
/// other request, which is forwarded.
pub fn preflight_response(is_options: bool) -> (res: Option<ProxyResponse>)
    ensures
        res is Some <==> is_options,
        res matches Some(r) ==> r.status == 200 && !r.json_content_type && r.body@.len() == 0,
{
    if is_options {
        Some(ProxyResponse { status: 200, json_content_type: false, body: String::new() })
    } else {
        None
    }
}

/// The JSON-RPC error that the client gets when the tunnel fails.
pub open spec fn failure_body() -> Seq<char> {
    "{\"error\":{\"code\":-4999,\"message\":\"mixnet request failed\"},\"id\":null,\"jsonrpc\":\"2.0\"}"@
}

/// The answer when the request to the provider fails: status 500 and a
/// JSON-RPC error object.
pub fn upstream_failure_response() -> (res: ProxyResponse)
    ensures
        res.status == 500,
        res.json_content_type,
        res.body@ == failure_body(),
{
    ProxyResponse {
        status: 500,
        json_content_type: true,
        body: String::from_str(
            "{\"error\":{\"code\":-4999,\"message\":\"mixnet request failed\"},\"id\":null,\"jsonrpc\":\"2.0\"}",
        ),
    }
}

/// The request that goes to the provider.
pub struct UpstreamRequest {
    /// Provider URL: scheme, `://`, full host, path.
    pub url: String,
    /// Whether the request carries the client's body, sent as
    /// `application/json`; only a non-empty body is sent.
    pub json_body: bool,
}

/// The request to the provider for a client request with a body of
/// `body_len` bytes. The URL uses the provider's real host name, which the
/// HTTP client resolves to the TCP proxy.
pub fn upstream_request(config: &ProxyConfig, body_len: usize) -> (req: UpstreamRequest)
    ensures
        req.url@ == config.rpc_provider_url.scheme@ + seq![':', '/', '/']
            + config.rpc_provider_url.full_host@ + config.rpc_provider_url.path@,
        req.json_body == (body_len > 0),
{
    UpstreamRequest { url: config.rpc_provider_url.upstream_url(), json_body: body_len > 0 }
}

} // verus!
