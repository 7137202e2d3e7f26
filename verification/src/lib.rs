//! Host-side codec for the serial boot-ROM protocol of BL616-class chips:
//! command frames, acknowledgement handling and typed responses.

pub mod commands;
pub mod crc32;
pub mod error;
pub mod session;
pub mod transport;
pub mod wire;
