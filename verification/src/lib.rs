//! Portal-authorized keyboard insertion for Wayland desktops.
pub mod connect;
pub mod desktop;
pub mod error;
pub mod handshake;
pub mod keymap;
pub mod keymap_file;
pub mod keymap_laws;
pub mod session;
pub mod session_laws;
pub mod shortcut;
pub mod token;
pub mod waiting;
