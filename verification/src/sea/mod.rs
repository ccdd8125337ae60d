//! The SEA agent's command-line layer: settings, themes, argument and REPL
//! command handling.
pub mod cli;
pub mod config;
pub mod error;
pub mod repl;
pub mod runtime;
pub mod theme;
