//! Library of a policy enforcement point for outbound HTTP(S) requests.
//!
//! An untrusted guest tunnels each HTTP request over a byte-stream transport
//! to a trusted daemon.  The daemon validates the request against a host
//! allowlist, an egress filter for private addresses, and optionally a rule
//! engine; performs the outbound call; follows redirects under strict
//! validation; and records exactly one audit entry per terminated request.
//!
//! This crate holds the decision logic: framing, validation, the mediation
//! state machine, policy evaluation and audit-record construction.  The
//! binary around it owns the sockets, the HTTP client and the filesystem,
//! drives the state machine, and performs the actions it requests.

pub mod audit;
pub mod b64;
pub mod clock;
pub mod config;
pub mod framing;
pub mod health;
pub mod ipaddr;
pub mod json;
pub mod mediator;
pub mod policy;
pub mod rego;
pub mod ssrf;
pub mod stream;
pub mod text;
pub mod types;
pub mod url_model;
