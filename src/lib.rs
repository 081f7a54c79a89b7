//! Validation of WebSocket opening handshakes (RFC 6455) and derivation of
//! the `Sec-WebSocket-Accept` token.
pub mod accept;
pub mod handshake;
pub mod http;
pub mod tokens;

pub use accept::{convert_key, encode_digest};
pub use handshake::{check_request_headers, HandshakeError, HandshakeInfo};
