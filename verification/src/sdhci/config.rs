//! Board parameters of the controller.

use vstd::prelude::*;

use crate::irq::InterruptMasks;

verus! {

/// Parameters that depend on the board and its clock speed.
#[derive(Clone, Copy, Debug, PartialEq, Eq, Structural)]
pub struct HostConfig {
    /// Interrupt enable masks.
    pub masks: InterruptMasks,
    /// How often to look for an idle command line.
    pub cmd_idle_polls: u32,
    /// How often to look for a stable internal clock.
    pub clock_stable_polls: u32,
    /// How often to look for the end of a reset.
    pub reset_polls: u32,
    /// How often to ask the card whether it is ready.
    pub ocr_retries: u32,
    /// Base clock in Hz where the controller reports none.
    pub fallback_base_clock: u32,
}

} // verus!
