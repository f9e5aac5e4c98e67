//! Control-table addresses of the XL330 actuator.
//!
//! | Address | Name                  | Size | Access |
//! |---------|-----------------------|------|--------|
//! | 64      | Torque Enable         | 1    | RW     |
//! | 70      | Hardware Error Status | 1    | R      |
//! | 116     | Goal Position         | 4    | RW     |
//! | 126     | Present Load          | 2    | R      |
//! | 132     | Present Position      | 4    | R      |
//! | 146     | Present Temperature   | 1    | R      |

use vstd::prelude::*;

verus! {

pub const TORQUE_ENABLE: u16 = 64;

pub const HARDWARE_ERROR_STATUS: u16 = 70;

pub const GOAL_POSITION: u16 = 116;

pub const PRESENT_LOAD: u16 = 126;

pub const PRESENT_POSITION: u16 = 132;

pub const PRESENT_TEMPERATURE: u16 = 146;

} // verus!
