//! What the server and the browser client have in common: the wire formats and the
//! configuration.
pub mod client_datagram;
pub mod codec;
pub mod config;
pub mod fragments;
pub mod log_level;
pub mod server_datagram;
pub mod wire;
