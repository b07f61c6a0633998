//! The bits of a byte stream, in the two orders in which they are sent.

use vstd::prelude::*;
use crate::level::Level;

verus! {

/// Bit `index` of `byte`, counted from the least significant.
pub open spec fn bit_of(byte: u8, index: u8) -> u8 {
    (byte >> index) & 1
}

/// The level that stands for bit `position` of the stream `data` when each
/// byte goes out least significant bit first.
pub open spec fn lsb_first(data: Seq<u8>, position: nat) -> Level {
    Level::of_bit(bit_of(data[position as int / 8], (position % 8) as u8))
}

/// The level that stands for bit `position` of the stream `data` when each
/// byte goes out most significant bit first.
pub open spec fn msb_first(data: Seq<u8>, position: nat) -> Level {
    Level::of_bit(bit_of(data[position as int / 8], (7 - position % 8) as u8))
}

/// The level that stands for bit `index` of `byte`.
pub(crate) fn bit_level(byte: u8, index: u8) -> (level: Level)
    requires
        index < 8,
    ensures
        level == Level::of_bit(bit_of(byte, index)),
{
    let bit: u8 = (byte >> index) & 1;
    assert(bit <= 1) by (bit_vector)
        requires
            bit == (byte >> index) & 1,
    ;
    match Level::from_bit(bit) {
        Ok(level) => level,
        // A masked bit is 0 or 1, so there is no rejection to pass on.
        Err(_) => Level::Low,
    }
}

} // verus!
