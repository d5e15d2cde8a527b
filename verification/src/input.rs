//! Simulation input: the configuration schema and its validation.
pub mod config;
