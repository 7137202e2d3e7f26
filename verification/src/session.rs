//! What a flashing session does around the commands: it confirms the
//! baud-rate handshake, pads the image and cuts it into flash writes.

use crate::commands::FlashWrite;
use vstd::prelude::*;
use vstd::slice::{slice_subrange, slice_to_vec};

verus! {

/// An image is padded with zero bytes to a multiple of this many bytes.
pub const IMAGE_ALIGNMENT: usize = 16;

/// The most bytes of the image that one flash write carries.
pub const CHUNK_SIZE: usize = 2048;

/// Whether `reply` ends in the letters `OK`.
pub open spec fn ends_in_ok(reply: Seq<u8>) -> bool {
    reply.len() >= 2 && reply[reply.len() - 2] == 0x4f && reply[reply.len() - 1] == 0x4b
}

/// Whether the device's reply to the handshake confirms it: whether it ends
/// in `OK`.
pub fn sync_confirmed(reply: &[u8]) -> (confirmed: bool)
    ensures
        confirmed == ends_in_ok(reply@),
{
    let n = reply.len();
    n >= 2 && reply[n - 2] == 0x4f && reply[n - 1] == 0x4b
}

/// The number of zero bytes that bring `len` bytes to a multiple of
/// [`IMAGE_ALIGNMENT`].
pub open spec fn padding(len: nat) -> nat {
    ((IMAGE_ALIGNMENT - len % (IMAGE_ALIGNMENT as nat)) % (IMAGE_ALIGNMENT as int)) as nat
}

/// `image` followed by its padding.
pub open spec fn padded(image: Seq<u8>) -> Seq<u8> {
    image + Seq::new(padding(image.len()), |i: int| 0u8)
}

/// A padded image is a multiple of [`IMAGE_ALIGNMENT`] long, begins with the
/// image, and is the image itself where that was aligned already.
pub proof fn lemma_padded_is_aligned(image: Seq<u8>)
    ensures
        padded(image).len() % (IMAGE_ALIGNMENT as nat) == 0,
        padded(image).len() < image.len() + IMAGE_ALIGNMENT,
        padded(image).take(image.len() as int) == image,
        image.len() % (IMAGE_ALIGNMENT as nat) == 0 ==> padded(image) == image,
{
    assert(padded(image).take(image.len() as int) =~= image);
    if image.len() % (IMAGE_ALIGNMENT as nat) == 0 {
        assert(padded(image) =~= image);
    }
}

/// Pads `image` with zero bytes to a multiple of [`IMAGE_ALIGNMENT`].
pub fn pad_image(image: &mut Vec<u8>)
    ensures
        final(image)@ == padded(old(image)@),
{
    while image.len() % IMAGE_ALIGNMENT != 0
        invariant
            old(image)@.len() <= image@.len() <= old(image)@.len() + padding(old(image)@.len()),
            image@.len() < old(image)@.len() + padding(old(image)@.len()) ==> image@.len()
                % (IMAGE_ALIGNMENT as nat) != 0,
            image@ == old(image)@ + Seq::new(
                (image@.len() - old(image)@.len()) as nat,
                |i: int| 0u8,
            ),
        decreases old(image)@.len() + padding(old(image)@.len()) - image@.len(),
    {
        image.push(0);
        proof {
            assert(image@ =~= old(image)@ + Seq::new(
                (image@.len() - old(image)@.len()) as nat,
                |i: int| 0u8,
            ));
        }
    }
    proof {
        assert(image@ =~= padded(old(image)@));
    }
}

/// The number of flash writes that carry `len` bytes.
pub open spec fn chunk_count(len: nat) -> nat {
    ((len + CHUNK_SIZE - 1) / (CHUNK_SIZE as int)) as nat
}

/// The bytes of `image` that the flash write of the given index carries.
pub open spec fn chunk(image: Seq<u8>, index: int) -> Seq<u8>
    recommends
        0 <= index < chunk_count(image.len()),
{
    let from = index * CHUNK_SIZE;
    let to = if from + CHUNK_SIZE <= image.len() {
        from + CHUNK_SIZE
    } else {
        image.len() as int
    };
    image.subrange(from, to)
}

/// The chunks of an image cover it byte by byte: the byte at `at` is in the
/// chunk `at / CHUNK_SIZE`, at the place `at % CHUNK_SIZE`. No chunk is empty
/// and none is longer than [`CHUNK_SIZE`].
pub proof fn lemma_chunks_cover_image(image: Seq<u8>, at: int)
    requires
        0 <= at < image.len(),
    ensures
        at / (CHUNK_SIZE as int) < chunk_count(image.len()),
        0 < chunk(image, at / (CHUNK_SIZE as int)).len() <= CHUNK_SIZE,
        at % (CHUNK_SIZE as int) < chunk(image, at / (CHUNK_SIZE as int)).len(),
        chunk(image, at / (CHUNK_SIZE as int))[at % (CHUNK_SIZE as int)] == image[at],
{
    let index = at / (CHUNK_SIZE as int);
    assert(at == index * CHUNK_SIZE + at % (CHUNK_SIZE as int));
}

/// Whether `writes` carry `image` to the flash from the address `base` on:
/// one write for every [`CHUNK_SIZE`] bytes begun, in order, each to the
/// address that follows the write before it.
pub open spec fn carries(writes: Seq<FlashWrite>, image: Seq<u8>, base: u32) -> bool {
    &&& writes.len() == chunk_count(image.len())
    &&& forall|i: int|
        0 <= i < writes.len() ==> {
            &&& (#[trigger] writes[i]).start_addr == base + i * CHUNK_SIZE
            &&& writes[i].data@ == chunk(image, i)
        }
}

/// Cuts `image` into the flash writes that carry it to the flash from the
/// address `base` on. There are none if the image would reach beyond the
/// last address.
pub fn flash_writes(image: &[u8], base: u32) -> (plan: Option<Vec<FlashWrite>>)
    ensures
        plan is Some <==> base + image@.len() <= u32::MAX,
        plan matches Some(writes) ==> carries(writes@, image@, base),
{
    let len = image.len();
    if len > (u32::MAX - base) as usize {
        return None;
    }
    let mut writes: Vec<FlashWrite> = Vec::new();
    let mut from: usize = 0;
    while from < len
        invariant
            len == image@.len(),
            base + len <= u32::MAX,
            from <= len,
            from < len ==> from == writes@.len() * CHUNK_SIZE,
            from == len ==> len <= writes@.len() * CHUNK_SIZE,
            writes@.len() > 0 ==> (writes@.len() - 1) * CHUNK_SIZE < len,
            forall|i: int|
                0 <= i < writes@.len() ==> {
                    &&& (#[trigger] writes@[i]).start_addr == base + i * CHUNK_SIZE
                    &&& writes@[i].data@ == chunk(image@, i)
                },
        decreases len - from,
    {
        let to: usize = if len - from >= CHUNK_SIZE {
            from + CHUNK_SIZE
        } else {
            len
        };
        let write = FlashWrite {
            start_addr: base + from as u32,
            data: slice_to_vec(slice_subrange(image, from, to)),
        };
        proof {
            assert(write.data@ == chunk(image@, writes@.len() as int));
        }
        writes.push(write);
        from = to;
    }
    Some(writes)
}

} // verus!
