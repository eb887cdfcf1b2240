//! The sink that records events in a database.

pub mod config;
pub mod event;
pub mod sink;
