//! The water-meter simulator's configuration.
pub mod config;
