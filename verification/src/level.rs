//! Logic levels and edge-trigger directions of a pin.

use vstd::prelude::*;
use crate::error::{DriverError, InvalidArgument};

verus! {

/// Code of the low logic level.
pub const GPIO_LOW: u8 = 0;

/// Code of the high logic level.
pub const GPIO_HIGH: u8 = 1;

/// Code of the trigger direction that reports no edge.
pub const TRIGGER_DISABLED: u8 = 0;

/// Code of the trigger direction that reports rising edges.
pub const TRIGGER_RISING_EDGE: u8 = 1;

/// Code of the trigger direction that reports falling edges.
pub const TRIGGER_FALLING_EDGE: u8 = 2;

/// Code of the trigger direction that reports edges of both kinds.
pub const TRIGGER_BOTH_EDGES: u8 = 3;

/// Instantaneous logic state of a pin.
#[derive(Clone, Copy, Debug, PartialEq, Eq, Structural)]
pub enum Level {
    Low,
    High,
}

impl Level {
    /// The code of a level: 0 for low, 1 for high.
    pub open spec fn spec_code(self) -> u8 {
        match self {
            Level::Low => GPIO_LOW,
            Level::High => GPIO_HIGH,
        }
    }

    /// The level that a bit value stands for, for the two bit values.
    pub open spec fn of_bit(bit: u8) -> Level {
        if bit == 0 {
            Level::Low
        } else {
            Level::High
        }
    }

    /// The code of a level: 0 for low, 1 for high.
    #[verifier::when_used_as_spec(spec_code)]
    pub fn code(self) -> (c: u8)
        ensures
            c == self.spec_code(),
    {
        match self {
            Level::Low => GPIO_LOW,
            Level::High => GPIO_HIGH,
        }
    }

    /// The level to drive for a bit: low for 0, high for 1. Any other value
    /// is no bit and is rejected.
    pub fn from_bit(bit: u8) -> (r: Result<Level, DriverError>)
        ensures
            bit <= 1 ==> r == Ok::<Level, DriverError>(Level::of_bit(bit)),
            bit > 1 ==> r == Err::<Level, DriverError>(
                DriverError::InvalidArgument(InvalidArgument::BitValue(bit)),
            ),
    {
        if bit == 0 {
            Ok(Level::Low)
        } else if bit == 1 {
            Ok(Level::High)
        } else {
            Err(DriverError::InvalidArgument(InvalidArgument::BitValue(bit)))
        }
    }
}

/// Which transitions of an input pin an edge wait reports.
#[derive(Clone, Copy, Debug, PartialEq, Eq, Structural)]
pub enum TriggerDirection {
    Disabled,
    RisingEdge,
    FallingEdge,
    BothEdges,
}

impl TriggerDirection {
    /// The code of a direction.
    pub open spec fn spec_code(self) -> u8 {
        match self {
            TriggerDirection::Disabled => TRIGGER_DISABLED,
            TriggerDirection::RisingEdge => TRIGGER_RISING_EDGE,
            TriggerDirection::FallingEdge => TRIGGER_FALLING_EDGE,
            TriggerDirection::BothEdges => TRIGGER_BOTH_EDGES,
        }
    }

    /// The direction that a code stands for, for the four known codes.
    pub open spec fn of_code(code: u8) -> TriggerDirection {
        if code == TRIGGER_DISABLED {
            TriggerDirection::Disabled
        } else if code == TRIGGER_RISING_EDGE {
            TriggerDirection::RisingEdge
        } else if code == TRIGGER_FALLING_EDGE {
            TriggerDirection::FallingEdge
        } else {
            TriggerDirection::BothEdges
        }
    }

    /// The code of a direction.
    #[verifier::when_used_as_spec(spec_code)]
    pub fn code(self) -> (c: u8)
        ensures
            c == self.spec_code(),
    {
        match self {
            TriggerDirection::Disabled => TRIGGER_DISABLED,
            TriggerDirection::RisingEdge => TRIGGER_RISING_EDGE,
            TriggerDirection::FallingEdge => TRIGGER_FALLING_EDGE,
            TriggerDirection::BothEdges => TRIGGER_BOTH_EDGES,
        }
    }

    /// The direction that a code stands for. A code outside the four known
    /// ones is rejected.
    pub fn from_code(code: u8) -> (r: Result<TriggerDirection, DriverError>)
        ensures
            code <= TRIGGER_BOTH_EDGES ==> r == Ok::<TriggerDirection, DriverError>(
                TriggerDirection::of_code(code),
            ),
            code > TRIGGER_BOTH_EDGES ==> r == Err::<TriggerDirection, DriverError>(
                DriverError::InvalidArgument(InvalidArgument::TriggerDirection(code)),
            ),
    {
        if code == TRIGGER_DISABLED {
            Ok(TriggerDirection::Disabled)
        } else if code == TRIGGER_RISING_EDGE {
            Ok(TriggerDirection::RisingEdge)
        } else if code == TRIGGER_FALLING_EDGE {
            Ok(TriggerDirection::FallingEdge)
        } else if code == TRIGGER_BOTH_EDGES {
            Ok(TriggerDirection::BothEdges)
        } else {
            Err(DriverError::InvalidArgument(InvalidArgument::TriggerDirection(code)))
        }
    }
}

} // verus!
