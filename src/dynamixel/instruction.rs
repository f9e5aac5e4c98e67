//! Instruction codes of Dynamixel protocol 2.0.

use vstd::prelude::*;

verus! {

pub const READ: u8 = 0x02;

pub const REBOOT: u8 = 0x08;

pub const SYNC_READ: u8 = 0x82;

pub const SYNC_WRITE: u8 = 0x83;

/// Marks a frame sent back by an actuator.
pub const STATUS: u8 = 0x55;

} // verus!
