//! The meter-reading unit: its configuration, framing of received bits
//! into characters and messages, and the decisions of its worker thread.
pub mod config;
pub mod error;
pub mod operation;
pub mod receiver;
pub mod uart_framing;
