//! losker: the look-and-feel configuration, login state, session list,
//! greetd wire framing and the screen logic of a terminal-style greeter
//! and screen locker.

pub mod text;
pub mod config;
pub mod state;
pub mod tui;
pub mod greetd_ipc;
pub mod auth;
pub mod sessions;
pub mod ui;
pub mod cli;
