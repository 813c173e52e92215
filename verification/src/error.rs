//! Errors of SDIO operations.

use vstd::prelude::*;

verus! {

/// Why an SDIO operation failed.
#[derive(Clone, Copy, Debug, PartialEq, Eq, Structural)]
pub enum SdioError {
    /// A command or data CRC did not match.
    CrcError,
    /// The controller or the card did not answer in time.
    Timeout,
    /// Any other failure reported by the controller or the card.
    IoError,
    /// The request is not one that the controller or the card can serve.
    Unsupported,
}

/// The answer to an operation: a value, or why there is none.
pub type Answer = Result<u32, SdioError>;

} // verus!
