//! Layered YAML configuration loading, the message models of an event
//! feed, and the decision logic of a few timer and process-I/O loops.

pub mod yaml;
pub mod merge;
pub mod config;
pub mod models;
pub mod text;
pub mod process;
pub mod stdio;
pub mod ticks;
