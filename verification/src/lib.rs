//! The logic of a status bar for X11 and Wayland: expressions over
//! variables, the configuration and its defaults, the state the commands
//! feed, popups, the placement of the bar's windows and what the pointer
//! does to them, and the helper programs (desktop, keyboard, media
//! players, tray items, system statistics, LLM prompts, the MCP server),
//! each with its contract.

use vstd::prelude::*;

pub mod text;
pub mod decimal;
pub mod parse;
pub mod vars;
pub mod pattern;
pub mod config;
pub mod source;
pub mod state;
pub mod popup;
pub mod protocol;
pub mod bar;
pub mod drawing;
pub mod ipc;
pub mod cli;
pub mod keyboard;
pub mod desktop;
pub mod mpris;
pub mod llm;
pub mod mcp;
pub mod timer;
pub mod notify;
pub mod pidfile;
pub mod clock;
pub mod xrandr;
pub mod ewmh;
pub mod stats;
pub mod sni;
pub mod window;

verus! {
} // verus!
