//! Client-side transport and file-transfer core of a terminal program:
//! a Telnet byte-stream decoder and an XMODEM/YMODEM block-transfer engine,
//! both written as explicit state machines over plain bytes.

pub mod call;
pub mod com;
pub mod crc;
pub mod protocol;
pub mod telnet;
