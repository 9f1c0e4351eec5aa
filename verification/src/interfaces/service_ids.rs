//! UDS service identifiers (ISO 14229-1).
use vstd::prelude::*;

verus! {

pub const SESSION_CONTROL: u8 = 0x10;
pub const ECU_RESET: u8 = 0x11;
pub const CLEAR_DIAGNOSTIC_INFORMATION: u8 = 0x14;
pub const READ_DTC_INFORMATION: u8 = 0x19;
pub const READ_DATA_BY_IDENTIFIER: u8 = 0x22;
pub const SECURITY_ACCESS: u8 = 0x27;
pub const COMMUNICATION_CONTROL: u8 = 0x28;
pub const AUTHENTICATION: u8 = 0x29;
pub const WRITE_DATA_BY_IDENTIFIER: u8 = 0x2E;
pub const INPUT_OUTPUT_CONTROL_BY_IDENTIFIER: u8 = 0x2F;
pub const ROUTINE_CONTROL: u8 = 0x31;
pub const REQUEST_DOWNLOAD: u8 = 0x34;
pub const TRANSFER_DATA: u8 = 0x36;
pub const REQUEST_TRANSFER_EXIT: u8 = 0x37;
pub const TESTER_PRESENT: u8 = 0x3E;
pub const CONTROL_DTC_SETTING: u8 = 0x85;
pub const NEGATIVE_RESPONSE: u8 = 0x7F;

} // verus!
