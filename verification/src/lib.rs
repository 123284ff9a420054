//! A driver core for the STM32 factory UART bootloader: frame codecs,
//! Intel HEX decoding, contiguous-block assembly, and the identify and
//! flash protocol flows as a pure state machine. A thin shell performs
//! the serial I/O and feeds events back to the machine.

pub mod errors;
pub mod frames;
pub mod image;
pub mod hex;
pub mod wire;
pub mod boot;
pub mod session;
pub mod laws;
pub mod log;
pub mod ports;
