//! A verified core for a self-evolving agent: session containers, server
//! lifecycles and routing, structured prompt assembly, and agent/gateway
//! bookkeeping.
pub mod text;
pub mod strmap;
pub mod prompt;
pub mod sessions;
pub mod llm;
pub mod logger;
pub mod config;
pub mod session;
pub mod agent;
pub mod gateway;
pub mod sea;
pub mod cli;
