use vstd::prelude::*;

pub mod agent;
pub mod cli;
pub mod config;
pub mod context;
pub mod fullscreen;
pub mod hooks;
pub mod json;
pub mod map;
pub mod mcp;
pub mod parser;
pub mod patch;
pub mod preview;
pub mod providers;
pub mod permissions;
pub mod review;
pub mod safety;
pub mod session;
pub mod skills;
pub mod subagents;
pub mod tasks;
pub mod text;
pub mod tools;
pub mod ui;

verus! {
}
