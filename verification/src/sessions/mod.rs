//! Session containers: sessions, their servers and routes, message history
//! and caches.
pub mod routing_table;
pub mod models;
pub mod store;
pub mod manager;
pub mod lifecycle;
pub mod cache;
pub mod cli;
