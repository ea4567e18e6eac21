//! The browser client.
pub mod assembly;
pub mod audio;
pub mod gamepad;
pub mod input;
pub mod log;
pub mod receiver;
pub mod transport;
pub mod video;
