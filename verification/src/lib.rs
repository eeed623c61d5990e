//! Core of a small monitoring daemon that serves sensor readings over the
//! ksysguardd line protocol: sensor metadata parsing, the monitor registry,
//! the per-line protocol engine, and the decision logic of the background
//! collection workers.

pub mod config;
pub mod monitor;
pub mod protocol;
pub mod text;
