//! Verified core of an RPC proxy that routes requests through a mixnet: the
//! upstream header framing, the session bookkeeping on both ends, the URL
//! handling of the RPC provider, the HTTP proxy decisions and the message
//! checks before signing.
pub mod http_proxy;
pub mod provider;
pub mod session;
pub mod signing;
pub mod text;
pub mod upstream;
pub mod utf8_text;
