//! Host side of the fastboot flashing protocol: reply decoding, the
//! request/reply exchange over a byte transport, and the command set.

pub mod reply;
pub mod fastboot;
pub mod scripted;
pub mod usbio;
