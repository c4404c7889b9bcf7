use std::time::Duration;

use nym_rpc::http_proxy::{
    forward_response_header, is_hop_by_hop_header, preflight_response, upstream_failure_response,
    upstream_request, ProxyConfig,
};
use nym_rpc::provider::{tcp_proxy_address, tcp_proxy_address_from_parts, RpcProviderUrl, UrlParts};
use nym_rpc::text::{decimal_string, join_host_port, same_text};

#[test]
fn provider_with_https_defaults_to_443() {
    let p = RpcProviderUrl::try_new("https://mainnet.infura.io/v3/abc").unwrap();
    assert_eq!(p.host, "mainnet.infura.io");
    assert_eq!(p.port, 443);
    assert_eq!(p.full_host, "mainnet.infura.io:443");
    assert_eq!(p.path, "/v3/abc");
    assert_eq!(p.scheme, "https");
}

#[test]
fn provider_with_http_defaults_to_80_and_keeps_explicit_port() {
    let p = RpcProviderUrl::new("http://example.com");
    assert_eq!(p.port, 80);
    assert_eq!(p.full_host, "example.com:80");
    assert_eq!(p.path, "/");
    let p = RpcProviderUrl::new("http://localhost:8545/rpc");
    assert_eq!(p.port, 8545);
    assert_eq!(p.full_host, "localhost:8545");
    assert_eq!(p.path, "/rpc");
    // 443 is the default port of wss, so the URL reports none and the
    // provider falls back to 80, as for every scheme but https
    let p = RpcProviderUrl::new("wss://node.example:443");
    assert_eq!(p.port, 80);
    assert_eq!(p.scheme, "wss");
}

#[test]
fn provider_needs_a_url_with_a_host() {
    assert!(RpcProviderUrl::try_new("not a url").is_none());
    assert!(RpcProviderUrl::try_new("data:text/plain,hello").is_none());
}

#[test]
fn upstream_url_joins_scheme_host_and_path() {
    let p = RpcProviderUrl::new("https://rpc.example.org/v1/key");
    assert_eq!(p.upstream_url(), "https://rpc.example.org:443/v1/key");
    let config = ProxyConfig {
        listen_address: "127.0.0.1".to_string(),
        listen_port: 8545,
        tcp_proxy_url: "127.0.0.1:8118".to_string(),
        timeout: Duration::from_secs(60),
        rpc_provider_url: p,
    };
    let copy = config.clone();
    assert_eq!(copy.timeout, Duration::from_secs(60));
    assert_eq!(copy.rpc_provider_url.full_host, "rpc.example.org:443");
    let req = upstream_request(&config, 12);
    assert_eq!(req.url, "https://rpc.example.org:443/v1/key");
    assert!(req.json_body);
    assert!(!upstream_request(&config, 0).json_body);
}

#[test]
fn tcp_proxy_address_defaults() {
    assert_eq!(tcp_proxy_address("127.0.0.1:8118").ok().unwrap(), "127.0.0.1:8118");
    assert_eq!(tcp_proxy_address("localhost").ok().unwrap(), "localhost:8080");
    // port 80 is the default of http, so the URL reports none
    assert_eq!(tcp_proxy_address("localhost:80").ok().unwrap(), "localhost:8080");
    assert!(tcp_proxy_address("[::1").is_err());
}

#[test]
fn decimal_and_join() {
    assert_eq!(decimal_string(0), "0");
    assert_eq!(decimal_string(7), "7");
    assert_eq!(decimal_string(10), "10");
    assert_eq!(decimal_string(8545), "8545");
    assert_eq!(decimal_string(65535), "65535");
    assert_eq!(join_host_port("h", 443), "h:443");
    assert!(same_text("abc", "abc"));
    assert!(!same_text("abc", "abd"));
}

#[test]
fn hop_by_hop_headers_are_not_forwarded() {
    for h in [
        "connection",
        "keep-alive",
        "proxy-authenticate",
        "proxy-authorization",
        "te",
        "trailers",
        "transfer-encoding",
        "upgrade",
    ] {
        assert!(is_hop_by_hop_header(h));
        assert!(!forward_response_header(h));
    }
    assert!(!is_hop_by_hop_header("content-type"));
    assert!(!is_hop_by_hop_header("Connection"));
    assert!(!forward_response_header("Connection"));
    assert!(!forward_response_header("TRANSFER-ENCODING"));
    assert!(forward_response_header("Content-Type"));
}

#[test]
fn canned_responses() {
    let r = preflight_response(true).unwrap();
    assert_eq!(r.status, 200);
    assert!(!r.json_content_type);
    assert_eq!(r.body, "");
    assert!(preflight_response(false).is_none());
    let r = upstream_failure_response();
    assert_eq!(r.status, 500);
    assert!(r.json_content_type);
    let v: serde_json::Value = serde_json::from_str(&r.body).unwrap();
    assert_eq!(v["jsonrpc"], "2.0");
    assert_eq!(v["error"]["code"], -4999);
    assert_eq!(v["error"]["message"], "mixnet request failed");
    assert!(v["id"].is_null());
    assert_eq!(
        r.body,
        "{\"error\":{\"code\":-4999,\"message\":\"mixnet request failed\"},\"id\":null,\"jsonrpc\":\"2.0\"}"
    );
}

fn parts(scheme: &str, host: Option<&str>, port: Option<u16>, path: &str) -> UrlParts {
    UrlParts {
        scheme: scheme.to_string(),
        host: host.map(|h| h.to_string()),
        port,
        path: path.to_string(),
    }
}

#[test]
fn provider_from_parts() {
    let p = RpcProviderUrl::from_parts(parts("https", Some("h.example"), None, "/p")).unwrap();
    assert_eq!((p.full_host.as_str(), p.port), ("h.example:443", 443));
    let p = RpcProviderUrl::from_parts(parts("http", Some("h"), None, "/")).unwrap();
    assert_eq!((p.full_host.as_str(), p.port), ("h:80", 80));
    let p = RpcProviderUrl::from_parts(parts("https", Some("h"), Some(8443), "/")).unwrap();
    assert_eq!((p.full_host.as_str(), p.port), ("h:8443", 8443));
    assert!(RpcProviderUrl::from_parts(parts("https", None, Some(1), "/")).is_none());
}

#[test]
fn tcp_proxy_address_from_url_parts() {
    assert_eq!(tcp_proxy_address_from_parts(&parts("http", None, None, "/")), "127.0.0.1:8080");
    assert_eq!(tcp_proxy_address_from_parts(&parts("http", Some("proxy"), Some(9000), "/")), "proxy:9000");
}
