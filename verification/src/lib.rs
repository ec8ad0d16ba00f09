pub mod text;
pub mod uart_format;
pub mod wifi;
pub mod device;
pub mod cli;
pub mod led;
pub mod bounded;
pub mod meter;
pub mod mtu;
pub mod clock;
pub mod mqtt;
