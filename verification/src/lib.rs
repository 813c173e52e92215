//! Drivers for an SDIO host controller and for the Wi-Fi module behind it.

pub mod bits;
pub mod error;
pub mod irq;
pub mod regs;
pub mod sdhci;
pub mod wifi;
