//! Verified core of the Reachy Mini head controller: the Dynamixel 2.0 bus
//! codec and the bookkeeping around its replies.

pub mod dynamixel;
pub mod motors;
