//! Opportunistic acknowledgments for QUIC connections.

pub mod alpn;
pub mod ca_store;
pub mod client;
pub mod connection;
pub mod error;
pub mod flow;
pub mod handshake;
pub mod laws;
pub mod oack;
pub mod packet;
pub mod qlog;
pub mod ranges;
pub mod session;
pub mod text;
pub mod time;
pub mod tls;
