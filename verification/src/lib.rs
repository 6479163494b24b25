//! Forwarding HTTP proxy engine.
//!
//! The library holds the request-level logic of a forwarding proxy: routing
//! a parsed inbound request (CONNECT tunnel vs. header-selected forward),
//! computing the TLS upstream target from the routing header, rewriting the
//! forwarded header set, building the JSON error envelope, the bookkeeping
//! of the transport bridge between the two asynchronous read styles, and the
//! byte accounting of a CONNECT tunnel session. The surrounding program does
//! the sockets, TLS handshakes and HTTP framing and hands the library plain
//! values.

pub mod ascii;
pub mod bridge;
pub mod tunnel;
pub mod headers;
pub mod envelope;
pub mod route;
pub mod target;
