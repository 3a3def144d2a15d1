//! Verified core of a terminal dashboard for Kaspa nodes: command-line editing,
//! configuration rules, transaction analytics, protocol detection and the
//! formatting helpers that the screens rely on.
#![allow(unused_imports)]

pub mod text;
pub mod command_line;
pub mod rpc_types;
pub mod tally;
pub mod protocol;
pub mod analytics;
pub mod config;
pub mod app_state;
pub mod engine;
pub mod recent;
pub mod chain;
pub mod mining;
pub mod streaming;
pub mod screen;
pub mod keys;
pub mod daemon;
pub mod commands;
pub mod node_log;
pub mod help;
pub mod cli;
pub mod tui_cli;
