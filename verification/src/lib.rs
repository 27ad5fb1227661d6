//! Shelf-based texture atlas packing, with the small archive and tool-run
//! helpers that accompany it.
//!
//! Every function carries a contract over a mathematical model of its data;
//! the few calls into other crates are isolated in wrappers whose contracts
//! are stated but not proved.

pub mod pixels;
pub mod row;
pub mod entry;
pub mod layout;
pub mod atlas;
pub mod text;
pub mod naming;
pub mod error;
pub mod emit;
pub mod combine;
pub mod tool_run;
pub mod archive;
pub mod phase;
pub mod config;
