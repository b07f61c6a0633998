//! The ways in which an operation can fail.

use vstd::prelude::*;
use crate::level::TriggerDirection;

verus! {

/// A value that was rejected before the hardware was touched.
#[derive(Clone, Copy, Debug, PartialEq, Eq, Structural)]
pub enum InvalidArgument {
    /// A trigger direction code outside the four known ones.
    TriggerDirection(u8),
    /// A bit value other than 0 and 1.
    BitValue(u8),
    /// A response that does not answer the action the operation asked for.
    UnexpectedEvent,
}

/// Why an operation ended without a result.
#[derive(Debug, PartialEq, Eq)]
pub enum DriverError {
    /// The GPIO subsystem, a pin acquisition or an edge wait failed; carries
    /// the diagnostic of the underlying driver.
    Hardware(String),
    /// An argument was rejected.
    InvalidArgument(InvalidArgument),
    /// An edge that the protocol cannot do without did not occur in time.
    Timeout { pin: u8, direction: TriggerDirection },
}

} // verus!
