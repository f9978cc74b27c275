//! What the engine exchanges with the kitty terminal: its scrollback lines
//! and its remote-control commands.

pub mod buffer;
pub mod commands;
pub mod client;
