//! Dynamixel protocol 2.0: frame building and status-frame parsing.
//!
//! Wire layout of every frame:
//! `FF FF FD 00 | id | len_lo len_hi | instr | params.. | crc_lo crc_hi`,
//! where `len = params + 3` and the checksum covers every byte before it.

pub mod address;
pub mod crc;
pub mod frame;
pub mod instruction;
pub mod parse;

pub use crc::crc16;
pub use frame::{
    build_read_packet, build_reboot_packet, build_sync_current_position, build_sync_read,
    build_sync_read_hardware_error, build_sync_read_load, build_sync_read_temperature,
    build_sync_write_position, build_sync_write_torque,
};
pub use parse::{
    parse_1byte_packets, parse_1byte_packets_with_errors, parse_2byte_signed_packets,
    parse_position_packets, parse_status_packet, parse_status_packet_1byte,
    parse_status_packet_2byte_signed, ParseError,
};

use vstd::prelude::*;

verus! {

/// Identifier that addresses every actuator on the bus.
pub const BROADCAST_ID: u8 = 0xFE;

} // verus!
