//! Session-level proxy management around a Mihomo core: subscription
//! bookkeeping, shell environment statements, Mihomo configuration
//! documents, node lists and the interactive node-picker state machine.

pub mod text;
pub mod config;
pub mod url;
pub mod env;
pub mod yaml;
pub mod mihomo;
pub mod api;
pub mod tui;
pub mod nodes;
pub mod watchdog;
pub mod cli;

use vstd::prelude::*;

verus! {

} // verus!
