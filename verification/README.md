# nym_rpc

Verified core of an RPC proxy that routes blockchain RPC requests through the
Nym mixnet.

- `src/upstream.rs`: the upstream header (`UPSTREAM:<address>\n`) that the
  first message of a session carries, and the proof that reading it back gives
  the address and payload that were written.
- `src/session.rs`: message numbering on the client, the server's session
  table and routing of incoming messages, reply numbering, and the proof that
  a whole session passes through the tunnel unchanged.
- `src/provider.rs`: the RPC provider's URL and the TCP proxy address, read
  with the `url` crate.
- `src/http_proxy.rs`: decisions of the local HTTP proxy.
- `src/signing.rs`: checks on a contract message before signing.
- `src/text.rs`, `src/utf8_text.rs`: text helpers and UTF-8 facts.
- `app/`: the command-line program, networking and the mixnet SDK.
