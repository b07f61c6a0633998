//! Bit-banged serial transceiver logic for a radio chip that exposes its raw
//! signal on general-purpose pins.
//!
//! Every operation is a small deterministic machine. The machine names the
//! next thing to do with the hardware (an [`action::Action`]); the caller
//! does it and hands back what happened (an [`action::Event`]). All decisions
//! about framing, timing and termination are taken here, none by the caller.

pub mod action;
pub mod async_read;
pub mod async_write;
pub mod bits;
pub mod error;
pub mod interrupt;
pub mod level;
pub mod protocol;
pub mod sync_read;
pub mod sync_write;
pub mod time;
