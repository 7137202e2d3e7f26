//! Commands that erase, program, read and check the flash.

use crate::commands::{header, recalc_checksum, Command};
use crate::wire::{push_u32_le, u32_le_bytes};
use vstd::prelude::*;

verus! {

/// Erases the flash from `start` to `end`, both inclusive.
#[derive(Debug)]
pub struct FlashErase {
    pub start: u32,
    pub end: u32,
}

impl Command for FlashErase {
    type Response = ();

    open spec fn id(&self) -> u8 {
        0x30
    }

    open spec fn payload(&self) -> Seq<u8> {
        u32_le_bytes(self.start) + u32_le_bytes(self.end)
    }

    fn command_id(&self) -> (id: u8) {
        0x30
    }

    fn to_raw(&self) -> (raw: Vec<u8>) {
        let mut raw = header(self.command_id());
        push_u32_le(&mut raw, self.start);
        push_u32_le(&mut raw, self.end);
        proof {
            assert(raw@.skip(4) =~= self.payload());
        }
        recalc_checksum(raw.as_mut_slice());
        raw
    }
}

/// Programs `data` into the flash, beginning at `start_addr`.
#[derive(Debug)]
pub struct FlashWrite {
    pub start_addr: u32,
    pub data: Vec<u8>,
}

impl Command for FlashWrite {
    type Response = ();

    open spec fn id(&self) -> u8 {
        0x31
    }

    open spec fn payload(&self) -> Seq<u8> {
        u32_le_bytes(self.start_addr) + self.data@
    }

    fn command_id(&self) -> (id: u8) {
        0x31
    }

    fn to_raw(&self) -> (raw: Vec<u8>) {
        let mut raw = header(self.command_id());
        push_u32_le(&mut raw, self.start_addr);
        raw.extend_from_slice(self.data.as_slice());
        proof {
            assert(raw@.skip(4) =~= self.payload());
        }
        recalc_checksum(raw.as_mut_slice());
        raw
    }
}

/// Reads `len` bytes of flash, beginning at `start_addr`.
#[derive(Debug)]
pub struct FlashRead {
    pub start_addr: u32,
    pub len: u32,
}

impl Command for FlashRead {
    type Response = Vec<u8>;

    open spec fn id(&self) -> u8 {
        0x32
    }

    open spec fn payload(&self) -> Seq<u8> {
        u32_le_bytes(self.start_addr) + u32_le_bytes(self.len)
    }

    fn command_id(&self) -> (id: u8) {
        0x32
    }

    fn to_raw(&self) -> (raw: Vec<u8>) {
        let mut raw = header(self.command_id());
        push_u32_le(&mut raw, self.start_addr);
        push_u32_le(&mut raw, self.len);
        proof {
            assert(raw@.skip(4) =~= self.payload());
        }
        recalc_checksum(raw.as_mut_slice());
        raw
    }
}

/// Asks for the JEDEC identifier of the flash chip.
#[derive(Debug)]
pub struct FlashReadJedecId;

impl Command for FlashReadJedecId {
    type Response = Vec<u8>;

    open spec fn id(&self) -> u8 {
        0x36
    }

    open spec fn payload(&self) -> Seq<u8> {
        Seq::empty()
    }

    fn command_id(&self) -> (id: u8) {
        0x36
    }

    fn to_raw(&self) -> (raw: Vec<u8>) {
        header(self.command_id())
    }
}

/// The arguments of a status register read: the flash opcode and the number
/// of bytes to read. No wire format is defined for it.
#[derive(Debug)]
pub struct FlashReadStatusReg {
    pub cmd: u32,
    pub len: u32,
}

/// Asks the device to confirm that what was written arrived intact.
#[derive(Debug)]
pub struct FlashWriteCheck;

impl Command for FlashWriteCheck {
    type Response = ();

    open spec fn id(&self) -> u8 {
        0x3a
    }

    open spec fn payload(&self) -> Seq<u8> {
        Seq::empty()
    }

    fn command_id(&self) -> (id: u8) {
        0x3a
    }

    fn to_raw(&self) -> (raw: Vec<u8>) {
        header(self.command_id())
    }
}

/// Sets the flash parameters.
#[derive(Debug)]
pub struct FlashSetPara {
    /// Bit 7: take the pin setup from the efuse. Bit 6: select the second
    /// flash. Bits 5 to 0: the pin configuration.
    pub flash_pin: u8,
    /// Bits 7 to 4: the clock source. Bits 3 to 0: the clock divider.
    pub flash_clock_cfg: u8,
    /// 0: NIO, 1: DO, 2: QO, 3: DIO, 4: QIO.
    pub flash_io_mode: u8,
    /// The clock delay in half cycles, less one.
    pub flash_clk_delay: u8,
    /// The parameter block of the flash chip.
    pub flash_para: Vec<u8>,
}

impl FlashSetPara {
    /// The settings for the BL616 with its internal flash: pin configuration
    /// 0x02, clock configuration 0x41, dual output, no clock delay, and the
    /// given parameter block.
    pub fn new(flash_para: Vec<u8>) -> (cmd: Self)
        ensures
            cmd.flash_pin == 0x02,
            cmd.flash_clock_cfg == 0x41,
            cmd.flash_io_mode == 0x01,
            cmd.flash_clk_delay == 0x00,
            cmd.flash_para == flash_para,
    {
        FlashSetPara {
            flash_pin: 0x02,
            flash_clock_cfg: 0x41,
            flash_io_mode: 0x01,
            flash_clk_delay: 0x00,
            flash_para,
        }
    }
}

impl Command for FlashSetPara {
    type Response = ();

    open spec fn id(&self) -> u8 {
        0x3b
    }

    open spec fn payload(&self) -> Seq<u8> {
        seq![self.flash_pin, self.flash_clock_cfg, self.flash_io_mode, self.flash_clk_delay]
            + self.flash_para@
    }

    fn command_id(&self) -> (id: u8) {
        0x3b
    }

    fn to_raw(&self) -> (raw: Vec<u8>) {
        let mut raw = header(self.command_id());
        raw.push(self.flash_pin);
        raw.push(self.flash_clock_cfg);
        raw.push(self.flash_io_mode);
        raw.push(self.flash_clk_delay);
        raw.extend_from_slice(self.flash_para.as_slice());
        proof {
            assert(raw@.skip(4) =~= self.payload());
        }
        recalc_checksum(raw.as_mut_slice());
        raw
    }
}

/// Asks for the SHA-256 digest of `len` bytes of flash, beginning at
/// `start_addr`, read through the XIP window. The answer is the 32 bytes of
/// the digest.
#[derive(Debug)]
pub struct FlashXipReadSha {
    pub start_addr: u32,
    pub len: u32,
}

impl Command for FlashXipReadSha {
    type Response = Vec<u8>;

    open spec fn id(&self) -> u8 {
        0x3e
    }

    open spec fn payload(&self) -> Seq<u8> {
        u32_le_bytes(self.start_addr) + u32_le_bytes(self.len)
    }

    fn command_id(&self) -> (id: u8) {
        0x3e
    }

    fn to_raw(&self) -> (raw: Vec<u8>) {
        let mut raw = header(self.command_id());
        push_u32_le(&mut raw, self.start_addr);
        push_u32_le(&mut raw, self.len);
        proof {
            assert(raw@.skip(4) =~= self.payload());
        }
        recalc_checksum(raw.as_mut_slice());
        raw
    }
}

/// Enters XIP read mode, in which the flash contents can be verified.
#[derive(Debug)]
pub struct FlashXipReadStart;

impl Command for FlashXipReadStart {
    type Response = ();

    open spec fn id(&self) -> u8 {
        0x60
    }

    open spec fn payload(&self) -> Seq<u8> {
        Seq::empty()
    }

    fn command_id(&self) -> (id: u8) {
        0x60
    }

    fn to_raw(&self) -> (raw: Vec<u8>) {
        header(self.command_id())
    }
}

/// Leaves XIP read mode.
#[derive(Debug)]
pub struct FlashXipReadFinish;

impl Command for FlashXipReadFinish {
    type Response = ();

    open spec fn id(&self) -> u8 {
        0x61
    }

    open spec fn payload(&self) -> Seq<u8> {
        Seq::empty()
    }

    fn command_id(&self) -> (id: u8) {
        0x61
    }

    fn to_raw(&self) -> (raw: Vec<u8>) {
        header(self.command_id())
    }
}

} // verus!
