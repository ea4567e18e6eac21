//! The server.
pub mod auth;
pub mod base64;
pub mod bytes;
pub mod cert_watcher;
pub mod compositor_discovery;
pub mod config;
pub mod crypto;
pub mod error;
pub mod extensions;
pub mod frontend;
pub mod id_table;
pub mod input;
pub mod ipc;
pub mod logging;
pub mod pipewire;
pub mod server_datagram;
pub mod session;
pub mod setup;
pub mod sources;
pub mod tray;
pub mod video;
pub mod wt;
