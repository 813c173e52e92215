//! The Wi-Fi module: its bus, its transmit path, its network device and the way it
//! is brought up.

pub mod codec;
pub mod bus;
pub mod tx;
pub mod tx_run;
pub mod device;
pub mod wireless;
