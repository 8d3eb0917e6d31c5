//! Age classification of pending transactions and per-sender re-simulation
//! of the stale ones against a point-in-time chain state.
pub mod types;
pub mod scanner;
pub mod grouper;
pub mod engine;
pub mod report;
pub mod service;
pub mod builder;
