//! The queries that read the thread.

pub mod config;
pub mod info;
pub mod nodes;
