//! Core library for the `castors` CLI: validated domain types, config
//! schema/merge/identity rules, proxy policy rendering and container argv
//! construction.

pub mod text;
pub mod sorted;
pub mod base;
pub mod config;
pub mod proxy;
pub mod engine;
pub mod cli;
