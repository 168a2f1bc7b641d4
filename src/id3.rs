//! File-type sniffing and the optional ID3 metadata block at the start of a buffer.
use vstd::prelude::*;
use vstd::slice::{slice_subrange, slice_to_vec};

verus! {

/// The buffer starts with the ID3 signature `I`, `D`, `3`.
pub open spec fn starts_with_id3(d: Seq<u8>) -> bool {
    d.len() >= 3 && d[0] == 0x49 && d[1] == 0x44 && d[2] == 0x33
}

/// The buffer starts with a frame sync followed by one of the three bytes that
/// mark an MPEG-1 Layer III frame, with or without CRC protection.
pub open spec fn starts_with_frame_sync(d: Seq<u8>) -> bool {
    d.len() >= 2 && d[0] == 0xFF && (d[1] == 0xFB || d[1] == 0xF3 || d[1] == 0xF2)
}

pub open spec fn is_mp3_data(d: Seq<u8>) -> bool {
    starts_with_id3(d) || starts_with_frame_sync(d)
}

/// Size of the ID3 block after its 10-byte header: a syncsafe integer in bytes
/// 6 to 9, seven bits per byte, most significant first, the top bit of each
/// byte ignored.
pub open spec fn syncsafe_size(d: Seq<u8>) -> int {
    (d[6] as int % 128) * 0x200000 + (d[7] as int % 128) * 0x4000 + (d[8] as int % 128) * 0x80 + (
    d[9] as int % 128)
}

/// Offset at which audio frames start: 0 without an ID3 block, the buffer's
/// length when the block's header is cut short, else 10 plus the declared size.
pub open spec fn id3_offset(d: Seq<u8>) -> int {
    if !starts_with_id3(d) {
        0
    } else if d.len() < 10 {
        d.len() as int
    } else {
        10 + syncsafe_size(d)
    }
}

/// Checks whether the data represents an mp3 file.
pub fn is_mp3_file(data: &Vec<u8>) -> (r: bool)
    ensures
        r == is_mp3_data(data@),
        data@.len() < 2 ==> !r,
{
    if data.len() < 2 {
        false
    } else if data[0] == 0xFF {
        data[1] == 0xFB || data[1] == 0xF3 || data[1] == 0xF2
    } else if data.len() < 3 {
        false
    } else {
        data[0] == 0x49 && data[1] == 0x44 && data[2] == 0x33
    }
}

/// Checks whether the data starts with an ID3 block.
pub fn has_id3(data: &Vec<u8>) -> (r: bool)
    ensures
        r == starts_with_id3(data@),
{
    data.len() > 2 && data[0] == 0x49 && data[1] == 0x44 && data[2] == 0x33
}

/// Offset of the first audio frame, past the ID3 block if there is one.
pub fn get_id3_offset(data: &Vec<u8>) -> (r: u32)
    ensures
        r == id3_offset(data@),
{
    if has_id3(data) {
        if data.len() < 10 {
            data.len() as u32
        } else {
            let b6 = data[6] as u32;
            let b7 = data[7] as u32;
            let b8 = data[8] as u32;
            let b9 = data[9] as u32;
            proof {
                assert((b6 & 0x7f) << 21u32 | (b7 & 0x7f) << 14u32 | (b8 & 0x7f) << 7u32 | (b9 & 0x7f)
                    == (b6 % 128) * 0x200000 + (b7 % 128) * 0x4000 + (b8 % 128) * 0x80 + (b9 % 128)
                    && (b6 % 128) * 0x200000 + (b7 % 128) * 0x4000 + (b8 % 128) * 0x80 + (b9 % 128)
                    < 0x10000000) by (bit_vector)
                    requires
                        b6 < 256,
                        b7 < 256,
                        b8 < 256,
                        b9 < 256,
                ;
            }
            10 + ((b6 & 0x7f) << 21 | (b7 & 0x7f) << 14 | (b8 & 0x7f) << 7 | (b9 & 0x7f))
        }
    } else {
        0
    }
}

/// The bytes of the ID3 block: the buffer up to the first frame's offset, or
/// the whole buffer when the block claims to run past its end.
pub fn get_id3_data(data: &Vec<u8>) -> (r: Vec<u8>)
    ensures
        r@ == data@.subrange(0, if id3_offset(data@) <= data@.len() {
            id3_offset(data@)
        } else {
            data@.len() as int
        }),
{
    let offset = get_id3_offset(data);
    let end: usize = if (offset as usize) <= data.len() {
        offset as usize
    } else {
        data.len()
    };
    slice_to_vec(slice_subrange(data.as_slice(), 0, end))
}

/// Writing a size below 2^28 into bytes 6 to 9 as four 7-bit groups, most
/// significant first, and reading the offset back gives 10 plus that size.
pub proof fn lemma_syncsafe_round_trip(d: Seq<u8>, size: u32)
    requires
        starts_with_id3(d),
        d.len() >= 10,
        size < 0x10000000,
        d[6] == size / 0x200000,
        d[7] == (size / 0x4000) % 128,
        d[8] == (size / 0x80) % 128,
        d[9] == size % 128,
    ensures
        id3_offset(d) == 10 + size,
{
    let b6 = d[6] as u32;
    let b7 = d[7] as u32;
    let b8 = d[8] as u32;
    let b9 = d[9] as u32;
    assert((b6 % 128) * 0x200000 + (b7 % 128) * 0x4000 + (b8 % 128) * 0x80 + (b9 % 128) == size)
        by (bit_vector)
        requires
            size < 0x10000000,
            b6 == size / 0x200000,
            b7 == (size / 0x4000) % 128,
            b8 == (size / 0x80) % 128,
            b9 == size % 128,
    ;
}

} // verus!
