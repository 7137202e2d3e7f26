//! Commands that read the efuse.

use crate::commands::{header, Command, Crc32};
use vstd::prelude::*;

verus! {

/// Asks for the MAC address burnt into the efuse. The answer carries a
/// CRC-32 trailer.
#[derive(Debug)]
pub struct EfuseReadMac;

impl Command for EfuseReadMac {
    type Response = Crc32<Vec<u8>>;

    open spec fn id(&self) -> u8 {
        0x42
    }

    open spec fn payload(&self) -> Seq<u8> {
        Seq::empty()
    }

    fn command_id(&self) -> (id: u8) {
        0x42
    }

    fn to_raw(&self) -> (raw: Vec<u8>) {
        header(self.command_id())
    }
}

} // verus!
