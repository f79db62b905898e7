//! Core of a desktop project runner: a multiplexer of pseudo-terminal
//! sessions, and the small rule tables around it.

pub mod buffer;
pub mod transport;
pub mod registry;
pub mod terminal;
pub mod text;
pub mod nvm;
pub mod platform;
pub mod kitty;
pub mod editor;
pub mod project;
pub mod webview;
pub mod git;
pub mod shell;
pub mod knowledge;
