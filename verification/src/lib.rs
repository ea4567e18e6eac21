//! Verified core of a remote desktop served to the browser.
pub mod server;
pub mod shared;
pub mod text;
pub mod web;
