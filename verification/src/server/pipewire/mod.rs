//! Screen capture and input emulation through PipeWire, the desktop portal and libei.
pub mod audio;
pub mod eis;
pub mod eis_keyboard;
pub mod gamepad;
pub mod pointer;
pub mod portal_auth;
pub mod touch;
pub mod video;
