//! Driver for the SC16IS752 dual UART with an 8-bit GPIO port, reached over
//! a two-wire bus.

pub mod config;
pub mod gpio;
pub mod interrupt;
pub mod registers;

pub use config::{Parity, UartConfig};
pub use gpio::{PinMode, PinState, GPIO};
pub use interrupt::{FeaturesRegister, InterruptEventTest};
pub use registers::Channel;
pub mod bus;

pub use bus::Bus;
pub mod device;

pub use device::{Error, SC16IS752};
