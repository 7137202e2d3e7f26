//! The CRC-32 trailer that guards some response payloads.
//!
//! A guarded payload ends in four bytes that spell, least significant byte
//! first, the CRC-32/ISO-HDLC checksum of everything before them.

use crate::error::Error;
use crate::wire::{
    lemma_u32_from_le_bytes, lemma_u32_le_of_bytes, read_u32_le, u32_from_le, u32_le_bytes,
};
use vstd::prelude::*;
use vstd::slice::slice_subrange;

verus! {

/// The CRC-32/ISO-HDLC checksum of `bytes`.
pub uninterp spec fn crc32_iso_hdlc(bytes: Seq<u8>) -> u32;

/// Computes a checksum with the `crc` crate: `Crc::<u32>::checksum`, on an
/// instance that `Crc::<u32>::new` builds for the catalogue entry
/// `CRC_32_ISO_HDLC`. Nothing here is proved; the contract only gives the
/// value that comes back its name, [`crc32_iso_hdlc`].
#[verifier::external_body]
fn crc32_of(bytes: &[u8]) -> (sum: u32)
    ensures
        sum == crc32_iso_hdlc(bytes@),
{
    crc::Crc::<u32>::new(&crc::CRC_32_ISO_HDLC).checksum(bytes)
}

/// Everything in `raw` before its last four bytes.
pub open spec fn body(raw: Seq<u8>) -> Seq<u8>
    recommends
        raw.len() >= 4,
{
    raw.take(raw.len() - 4)
}

/// The last four bytes of `raw`.
pub open spec fn trailer(raw: Seq<u8>) -> Seq<u8>
    recommends
        raw.len() >= 4,
{
    raw.skip(raw.len() - 4)
}

/// Whether `raw` has a trailer and that trailer spells `sum`.
pub open spec fn sealed_with(raw: Seq<u8>, sum: u32) -> bool {
    raw.len() >= 4 && u32_from_le(trailer(raw)) == sum
}

/// Whether `raw` ends in the checksum of its own body.
pub open spec fn intact(raw: Seq<u8>) -> bool {
    sealed_with(raw, crc32_iso_hdlc(body(raw)))
}

/// `payload` followed by its checksum.
pub open spec fn sealed(payload: Seq<u8>) -> Seq<u8> {
    payload + u32_le_bytes(crc32_iso_hdlc(payload))
}

/// Compares the trailer of `raw` with `sum`, a checksum computed elsewhere,
/// and hands back the body if they agree.
pub fn check_trailer<'a>(raw: &'a [u8], sum: u32) -> (r: Result<&'a [u8], Error>)
    ensures
        sealed_with(raw@, sum) ==> (r matches Ok(b) && b@ == body(raw@)),
        !sealed_with(raw@, sum) ==> r == Err::<&[u8], Error>(Error::ChecksumMismatch),
{
    let len = raw.len();
    if len < 4 {
        return Err(Error::ChecksumMismatch);
    }
    let stored = read_u32_le(slice_subrange(raw, len - 4, len));
    if stored != sum {
        return Err(Error::ChecksumMismatch);
    }
    Ok(slice_subrange(raw, 0, len - 4))
}

/// Verifies the trailer of `raw` and hands back the body it guards.
pub fn open_sealed<'a>(raw: &'a [u8]) -> (r: Result<&'a [u8], Error>)
    ensures
        intact(raw@) ==> (r matches Ok(b) && b@ == body(raw@)),
        !intact(raw@) ==> r == Err::<&[u8], Error>(Error::ChecksumMismatch),
{
    let len = raw.len();
    if len < 4 {
        return Err(Error::ChecksumMismatch);
    }
    let sum = crc32_of(slice_subrange(raw, 0, len - 4));
    check_trailer(raw, sum)
}

/// A sealed payload is intact, and its body is the payload.
pub proof fn lemma_sealed_is_intact(payload: Seq<u8>)
    ensures
        intact(sealed(payload)),
        body(sealed(payload)) == payload,
        trailer(sealed(payload)) == u32_le_bytes(crc32_iso_hdlc(payload)),
{
    let sum = crc32_iso_hdlc(payload);
    let raw = sealed(payload);
    assert(body(raw) =~= payload);
    assert(trailer(raw) =~= u32_le_bytes(sum));
    lemma_u32_from_le_bytes(sum);
}

/// A payload followed by any four bytes other than its checksum is not intact.
pub proof fn lemma_wrong_trailer_not_intact(payload: Seq<u8>, tail: Seq<u8>)
    requires
        tail.len() == 4,
        tail != u32_le_bytes(crc32_iso_hdlc(payload)),
    ensures
        !intact(payload + tail),
{
    let raw = payload + tail;
    assert(body(raw) =~= payload);
    assert(trailer(raw) =~= tail);
    lemma_u32_le_of_bytes(tail);
}

} // verus!
