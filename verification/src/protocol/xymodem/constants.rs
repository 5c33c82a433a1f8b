//! Control bytes and block lengths of the XMODEM/YMODEM wire format.

use vstd::prelude::*;

verus! {

/// Start of a block with a 128-byte payload.
pub const SOH: u8 = 0x01;

/// Start of a block with a 1024-byte payload.
pub const STX: u8 = 0x02;

/// End of transmission: the file is complete.
pub const EOT: u8 = 0x04;

/// Acknowledge.
pub const ACK: u8 = 0x06;

/// Negative acknowledge.
pub const NAK: u8 = 0x15;

/// Cancel.
pub const CAN: u8 = 0x18;

/// The filler that pads the last block of a file.
pub const CPMEOF: u8 = 0x1A;

/// The probe with which a receiver asks for blocks checked by CRC.
pub const PROBE_CRC: u8 = 0x43;

/// The payload length of a block that starts with `SOH`.
pub const DEFAULT_BLOCK_LENGTH: usize = 128;

/// The payload length of a block that starts with `STX`.
pub const EXT_BLOCK_LENGTH: usize = 1024;

} // verus!
