//! Lists the sessions of a terminal multiplexer (tmux, screen or zellij), resolves a
//! chosen entry back to its session and builds the command that creates or attaches.

pub mod directory;
pub mod resolver;
pub mod sessions;
pub mod text;
