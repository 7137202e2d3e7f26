//! Commands, their wire frames, and the responses they are answered with.
//!
//! A frame is the command's identifier, a checksum byte, the payload length
//! as a little-endian `u16`, and the payload. The checksum is the 8-bit
//! wraparound sum of everything after it.

use crate::error::Error;
use crate::wire::{
    byte_sum, checksum, checksum_of, lemma_u16_from_le_bytes, push_u32_le, u16_from_le,
    u16_le_bytes, u32_le_bytes,
};
use vstd::prelude::*;
use vstd::slice::slice_subrange;

pub mod efuse;
pub mod flash;
pub mod response;

pub use self::efuse::EfuseReadMac;
pub use self::flash::{
    FlashErase, FlashRead, FlashReadJedecId, FlashReadStatusReg, FlashSetPara, FlashWrite,
    FlashWriteCheck, FlashXipReadFinish, FlashXipReadSha, FlashXipReadStart,
};
pub use self::response::{BootInfo, BootInfoView, Crc32};

verus! {

/// A value that the device's answer to a command can be decoded into.
pub trait Response: Sized {
    /// Whether `out` is what decoding the payload `raw` gives.
    spec fn decoded(raw: Seq<u8>, out: Result<Self, Error>) -> bool;

    /// The payload size known in advance, if any. A size of zero means that
    /// the device sends neither a length nor a payload after its `OK`.
    spec fn expected_size() -> Option<usize>;

    /// Decodes a response payload.
    fn from_raw(raw: &[u8]) -> (out: Result<Self, Error>)
        ensures
            Self::decoded(raw@, out),
    ;

    /// The payload size known in advance, if any.
    fn size_hint() -> (hint: Option<usize>)
        ensures
            hint == Self::expected_size(),
    ;
}

/// A request that the boot ROM understands.
pub trait Command {
    /// What the device answers with.
    type Response: Response;

    /// The byte that identifies the command on the wire.
    spec fn id(&self) -> u8;

    /// The bytes that follow the frame header.
    spec fn payload(&self) -> Seq<u8>;

    /// The byte that identifies the command on the wire.
    fn command_id(&self) -> (id: u8)
        ensures
            id == self.id(),
    ;

    /// The complete wire frame of the command.
    fn to_raw(&self) -> (raw: Vec<u8>)
        ensures
            raw@ == frame(self.id(), self.payload()),
    ;
}

/// The length field of a frame whose payload has `len` bytes: `len` modulo
/// 2^16, least significant byte first.
pub open spec fn length_field(len: nat) -> Seq<u8> {
    u16_le_bytes((len % 65536) as u16)
}

/// The wire frame of the command `id` with the given payload.
pub open spec fn frame(id: u8, payload: Seq<u8>) -> Seq<u8> {
    let tail = length_field(payload.len()) + payload;
    seq![id, checksum(tail)] + tail
}

/// In every frame the second byte is the wraparound sum of all bytes after it.
pub proof fn lemma_frame_checksum(id: u8, payload: Seq<u8>)
    ensures
        frame(id, payload).len() == payload.len() + 4,
        frame(id, payload)[0] == id,
        frame(id, payload)[1] == checksum(frame(id, payload).skip(2)),
        frame(id, payload).skip(4) == payload,
{
    let tail = length_field(payload.len()) + payload;
    assert(frame(id, payload).skip(2) =~= tail);
    assert(frame(id, payload).skip(4) =~= payload);
}

/// In every frame whose payload fits the length field, bytes 2 and 3 spell
/// the payload length, least significant byte first.
pub proof fn lemma_frame_length(id: u8, payload: Seq<u8>)
    requires
        payload.len() <= 0xffff,
    ensures
        u16_from_le(frame(id, payload).subrange(2, 4)) == payload.len(),
{
    let len = payload.len() as u16;
    assert(frame(id, payload).subrange(2, 4) =~= u16_le_bytes(len));
    lemma_u16_from_le_bytes(len);
}

/// A frame without payload is the identifier followed by three zero bytes.
pub proof fn lemma_frame_of_nothing(id: u8)
    ensures
        frame(id, Seq::empty()) == seq![id, 0u8, 0u8, 0u8],
{
    let tail = length_field(0) + Seq::<u8>::empty();
    assert(tail =~= seq![0u8, 0u8]);
    reveal_with_fuel(byte_sum, 3);
    assert(tail.drop_last() =~= seq![0u8]);
    assert(tail.drop_last().drop_last() =~= Seq::<u8>::empty());
    assert(checksum(tail) == 0);
    assert(frame(id, Seq::empty()) =~= seq![id, 0u8, 0u8, 0u8]);
}

/// A frame header for `id` with length and checksum still zero.
pub fn header(id: u8) -> (raw: Vec<u8>)
    ensures
        raw@ == seq![id, 0u8, 0u8, 0u8],
        raw@ == frame(id, Seq::empty()),
{
    proof {
        lemma_frame_of_nothing(id);
    }
    let mut raw: Vec<u8> = Vec::with_capacity(4);
    raw.push(id);
    raw.push(0);
    raw.push(0);
    raw.push(0);
    raw
}

/// Fills in the length and the checksum of a frame whose first byte and
/// payload are in place.
///
/// A buffer of four bytes or fewer is left as it is. In a longer one, bytes 2
/// and 3 become the number of bytes after the header, modulo 2^16, and byte 1
/// becomes the wraparound sum of everything after it.
pub fn recalc_checksum(raw: &mut [u8])
    ensures
        old(raw)@.len() <= 4 ==> final(raw)@ == old(raw)@,
        old(raw)@.len() > 4 ==> final(raw)@ == frame(old(raw)@[0], old(raw)@.skip(4)),
{
    let total = raw.len();
    if total <= 4 {
        return ;
    }
    let len: usize = (total - 4) % 65536;
    raw[2] = (len % 256) as u8;
    raw[3] = (len / 256) as u8;
    proof {
        let payload = old(raw)@.skip(4);
        assert(raw@.subrange(2, total as int) =~= length_field(payload.len()) + payload);
    }
    let sum = checksum_of(slice_subrange(raw, 2, total));
    raw[1] = sum;
    proof {
        assert(raw@ =~= frame(old(raw)@[0], old(raw)@.skip(4)));
    }
}

/// Asks the boot ROM for its version and the chip's identity.
#[derive(Debug)]
pub struct GetBootInfo;

impl Command for GetBootInfo {
    type Response = BootInfo;

    open spec fn id(&self) -> u8 {
        0x10
    }

    open spec fn payload(&self) -> Seq<u8> {
        Seq::empty()
    }

    fn command_id(&self) -> (id: u8) {
        0x10
    }

    fn to_raw(&self) -> (raw: Vec<u8>) {
        header(self.command_id())
    }
}

/// Asks for the chip's name.
#[derive(Debug)]
pub struct GetChipId;

impl Command for GetChipId {
    type Response = String;

    open spec fn id(&self) -> u8 {
        0x05
    }

    open spec fn payload(&self) -> Seq<u8> {
        Seq::empty()
    }

    fn command_id(&self) -> (id: u8) {
        0x05
    }

    fn to_raw(&self) -> (raw: Vec<u8>) {
        header(self.command_id())
    }
}

/// Sets the clock and the speed of the link.
#[derive(Debug)]
pub struct ClockSet {
    pub irq_enable: bool,
    /// The speed of the link in baud.
    pub load_speed: u32,
    pub clock_parameter: Vec<u8>,
}

impl Default for ClockSet {
    /// Interrupts on, 115200 baud, no clock parameter.
    fn default() -> (cmd: Self)
        ensures
            cmd.irq_enable,
            cmd.load_speed == 115200,
            cmd.clock_parameter@ == Seq::<u8>::empty(),
    {
        ClockSet { irq_enable: true, load_speed: 115200, clock_parameter: Vec::new() }
    }
}

impl Command for ClockSet {
    type Response = ();

    open spec fn id(&self) -> u8 {
        0x22
    }

    open spec fn payload(&self) -> Seq<u8> {
        u32_le_bytes(if self.irq_enable { 1u32 } else { 0u32 }) + u32_le_bytes(self.load_speed)
            + self.clock_parameter@
    }

    fn command_id(&self) -> (id: u8) {
        0x22
    }

    fn to_raw(&self) -> (raw: Vec<u8>) {
        let mut raw = header(self.command_id());
        push_u32_le(&mut raw, if self.irq_enable { 1 } else { 0 });
        push_u32_le(&mut raw, self.load_speed);
        raw.extend_from_slice(self.clock_parameter.as_slice());
        proof {
            assert(raw@.skip(4) =~= self.payload());
        }
        recalc_checksum(raw.as_mut_slice());
        raw
    }
}

/// Restarts the chip.
#[derive(Debug)]
pub struct Reset;

impl Command for Reset {
    type Response = ();

    open spec fn id(&self) -> u8 {
        0x21
    }

    open spec fn payload(&self) -> Seq<u8> {
        Seq::empty()
    }

    fn command_id(&self) -> (id: u8) {
        0x21
    }

    fn to_raw(&self) -> (raw: Vec<u8>) {
        header(self.command_id())
    }
}

/// Asks for the boot ROM's log.
#[derive(Debug)]
pub struct LogRead;

impl Command for LogRead {
    type Response = String;

    open spec fn id(&self) -> u8 {
        0x71
    }

    open spec fn payload(&self) -> Seq<u8> {
        Seq::empty()
    }

    fn command_id(&self) -> (id: u8) {
        0x71
    }

    fn to_raw(&self) -> (raw: Vec<u8>) {
        header(self.command_id())
    }
}

} // verus!
