//! The shapes a response payload can take: nothing, raw bytes, text, the
//! boot information record, and any of these behind a CRC-32 trailer.

use crate::commands::Response;
use crate::crc32::{
    body, crc32_iso_hdlc, intact, lemma_sealed_is_intact, lemma_wrong_trailer_not_intact,
    open_sealed, sealed,
};
use crate::error::{Error, ErrorView};
use crate::wire::{reversed, u32_le_bytes};
use vstd::prelude::*;
use vstd::slice::{slice_subrange, slice_to_vec};
use vstd::utf8::{encode_utf8, valid_utf8};

verus! {

/// A command that is answered with a bare `OK` has the unit response: there
/// is no payload, and whatever is handed to the decoder is ignored.
impl Response for () {
    open spec fn decoded(raw: Seq<u8>, out: Result<Self, Error>) -> bool {
        out is Ok
    }

    open spec fn expected_size() -> Option<usize> {
        Some(0usize)
    }

    fn from_raw(_raw: &[u8]) -> (out: Result<Self, Error>) {
        Ok(())
    }

    fn size_hint() -> (hint: Option<usize>) {
        Some(0)
    }
}

/// The payload as it came.
impl Response for Vec<u8> {
    open spec fn decoded(raw: Seq<u8>, out: Result<Self, Error>) -> bool {
        out matches Ok(bytes) && bytes@ == raw
    }

    open spec fn expected_size() -> Option<usize> {
        None
    }

    fn from_raw(raw: &[u8]) -> (out: Result<Self, Error>) {
        Ok(slice_to_vec(raw))
    }

    fn size_hint() -> (hint: Option<usize>) {
        None
    }
}

/// Makes the error of `String::from_utf8` known as a type. Nothing is said
/// of what it holds.
#[verifier::external_type_specification]
#[verifier::external_body]
pub struct ExFromUtf8Error(std::string::FromUtf8Error);

/// Calls `String::from_utf8`. Nothing here is proved; the contract states
/// what the standard library documents of it: the call succeeds exactly on
/// valid UTF-8, and the text it returns has the given bytes as its encoding.
#[verifier::external_body]
fn string_from_utf8(bytes: Vec<u8>) -> (r: Result<String, std::string::FromUtf8Error>)
    ensures
        r is Ok <==> valid_utf8(bytes@),
        r matches Ok(text) ==> encode_utf8(text@) == bytes@,
{
    String::from_utf8(bytes)
}

/// The payload as text. A payload that is not valid UTF-8 is refused.
impl Response for String {
    open spec fn decoded(raw: Seq<u8>, out: Result<Self, Error>) -> bool {
        if valid_utf8(raw) {
            out matches Ok(text) && encode_utf8(text@) == raw
        } else {
            out == Err::<String, Error>(Error::TextDecodeError)
        }
    }

    open spec fn expected_size() -> Option<usize> {
        None
    }

    fn from_raw(raw: &[u8]) -> (out: Result<Self, Error>) {
        match string_from_utf8(slice_to_vec(raw)) {
            Ok(text) => Ok(text),
            Err(_) => Err(Error::TextDecodeError),
        }
    }

    fn size_hint() -> (hint: Option<usize>) {
        None
    }
}

/// A response that travels with a CRC-32 trailer. The trailer is verified
/// before the inner decoder sees anything, and is not part of what it sees.
#[derive(Debug, PartialEq, Eq)]
pub struct Crc32<T> {
    pub data: T,
}

impl<T: Response> Response for Crc32<T> {
    open spec fn decoded(raw: Seq<u8>, out: Result<Self, Error>) -> bool {
        if intact(raw) {
            match out {
                Ok(checked) => T::decoded(body(raw), Ok(checked.data)),
                Err(e) => T::decoded(body(raw), Err(e)),
            }
        } else {
            out == Err::<Self, Error>(Error::ChecksumMismatch)
        }
    }

    open spec fn expected_size() -> Option<usize> {
        None
    }

    fn from_raw(raw: &[u8]) -> (out: Result<Self, Error>) {
        match open_sealed(raw) {
            Ok(inner) => match T::from_raw(inner) {
                Ok(data) => Ok(Crc32 { data }),
                Err(e) => Err(e),
            },
            Err(_) => Err(Error::ChecksumMismatch),
        }
    }

    fn size_hint() -> (hint: Option<usize>) {
        None
    }
}

impl<T> std::ops::Deref for Crc32<T> {
    type Target = T;

    fn deref(&self) -> (inner: &T)
        ensures
            *inner == self.data,
    {
        &self.data
    }
}

/// A payload followed by its true checksum decodes to whatever the payload
/// alone decodes to.
pub proof fn lemma_sealed_round_trip<T: Response>(payload: Seq<u8>, out: Result<Crc32<T>, Error>)
    requires
        Crc32::<T>::decoded(sealed(payload), out),
    ensures
        match out {
            Ok(checked) => T::decoded(payload, Ok(checked.data)),
            Err(e) => T::decoded(payload, Err(e)),
        },
{
    lemma_sealed_is_intact(payload);
}

/// A byte buffer followed by its true checksum decodes to that buffer.
pub proof fn lemma_sealed_bytes_round_trip(payload: Seq<u8>, out: Result<Crc32<Vec<u8>>, Error>)
    requires
        Crc32::<Vec<u8>>::decoded(sealed(payload), out),
    ensures
        out matches Ok(checked) && checked.data@ == payload,
{
    lemma_sealed_is_intact(payload);
}

/// A payload followed by four bytes that differ from its checksum, in one
/// bit or in many, is refused as a checksum mismatch, whatever the inner
/// shape.
pub proof fn lemma_wrong_trailer_refused<T: Response>(
    payload: Seq<u8>,
    tail: Seq<u8>,
    out: Result<Crc32<T>, Error>,
)
    requires
        tail.len() == 4,
        tail != u32_le_bytes(crc32_iso_hdlc(payload)),
        Crc32::<T>::decoded(payload + tail, out),
    ensures
        out == Err::<Crc32<T>, Error>(Error::ChecksumMismatch),
{
    lemma_wrong_trailer_not_intact(payload, tail);
}

/// Fewer than four bytes are refused without consulting the inner shape.
pub proof fn lemma_short_input_refused<T: Response>(raw: Seq<u8>, out: Result<Crc32<T>, Error>)
    requires
        raw.len() < 4,
        Crc32::<T>::decoded(raw, out),
    ensures
        out == Err::<Crc32<T>, Error>(Error::ChecksumMismatch),
{
}

/// What the boot ROM reports about itself and the chip.
#[derive(Debug, PartialEq, Eq)]
pub struct BootInfo {
    pub boot_rom_version: [u8; 4],
    pub sign: u8,
    pub encrypt: u8,
    /// The six bytes of the chip identifier, most significant first.
    pub chip_id: Vec<u8>,
}

/// The number of payload bytes a boot information record is read from.
pub const BOOT_INFO_LEN: usize = 18;

/// A [`BootInfo`] with its contents as mathematical values.
pub struct BootInfoView {
    pub boot_rom_version: Seq<u8>,
    pub sign: u8,
    pub encrypt: u8,
    pub chip_id: Seq<u8>,
}

impl View for BootInfo {
    type V = BootInfoView;

    open spec fn view(&self) -> BootInfoView {
        BootInfoView {
            boot_rom_version: self.boot_rom_version@,
            sign: self.sign,
            encrypt: self.encrypt,
            chip_id: self.chip_id@,
        }
    }
}

/// The record that a payload of at least eighteen bytes holds: the version
/// in bytes 0 to 3, the two flags in bytes 4 and 5, and the chip identifier
/// in bytes 12 to 17, stored least significant byte first.
pub open spec fn boot_info_of(raw: Seq<u8>) -> BootInfoView
    recommends
        raw.len() >= BOOT_INFO_LEN,
{
    BootInfoView {
        boot_rom_version: raw.subrange(0, 4),
        sign: raw[4],
        encrypt: raw[5],
        chip_id: raw.subrange(12, 18).reverse(),
    }
}

/// The chip identifier of a decoded record is bytes 12 to 17 of the payload
/// in the opposite order; the version and the flags are bytes 0 to 5 as they
/// came.
pub proof fn lemma_boot_info_fields(raw: Seq<u8>, out: Result<BootInfo, Error>)
    requires
        raw.len() >= BOOT_INFO_LEN,
        BootInfo::decoded(raw, out),
    ensures
        out is Ok,
        out->Ok_0.boot_rom_version@ == seq![raw[0], raw[1], raw[2], raw[3]],
        out->Ok_0.sign == raw[4],
        out->Ok_0.encrypt == raw[5],
        out->Ok_0.chip_id@ == raw.subrange(12, 18).reverse(),
        out->Ok_0.chip_id@ == seq![raw[17], raw[16], raw[15], raw[14], raw[13], raw[12]],
{
    let info = out->Ok_0;
    assert(info@ == boot_info_of(raw));
    assert(info.boot_rom_version@ =~= seq![raw[0], raw[1], raw[2], raw[3]]);
    assert(info.chip_id@ =~= seq![raw[17], raw[16], raw[15], raw[14], raw[13], raw[12]]);
}

impl Response for BootInfo {
    open spec fn decoded(raw: Seq<u8>, out: Result<Self, Error>) -> bool {
        if raw.len() >= BOOT_INFO_LEN {
            out matches Ok(info) && info@ == boot_info_of(raw)
        } else {
            out matches Err(e) && e@ == ErrorView::ProtocolViolation(raw)
        }
    }

    open spec fn expected_size() -> Option<usize> {
        None
    }

    fn from_raw(raw: &[u8]) -> (out: Result<Self, Error>) {
        if raw.len() < BOOT_INFO_LEN {
            return Err(Error::ProtocolViolation(slice_to_vec(raw)));
        }
        let chip_id = reversed(slice_subrange(raw, 12, 18));
        let info = BootInfo {
            boot_rom_version: [raw[0], raw[1], raw[2], raw[3]],
            sign: raw[4],
            encrypt: raw[5],
            chip_id,
        };
        proof {
            assert(info.boot_rom_version@ =~= raw@.subrange(0, 4));
        }
        Ok(info)
    }

    fn size_hint() -> (hint: Option<usize>) {
        None
    }
}

} // verus!
