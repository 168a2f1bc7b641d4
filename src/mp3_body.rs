//! Side information at the start of a Layer III frame payload. Its bit layout
//! depends on whether the frame is mono (single channel) or not.
use vstd::prelude::*;

verus! {

/// Value of the 9-bit main-data-begin field: all of byte 0, then the top bit of byte 1.
pub open spec fn main_data_begin_of(d: Seq<u8>) -> int {
    (d[0] as int) * 2 + (d[1] as int) / 128
}

/// Private bits: 5 bits of byte 1 for mono, 3 bits for stereo.
pub open spec fn private_bits_of(d: Seq<u8>, is_mono: bool) -> int {
    if is_mono {
        ((d[1] as int) / 4) % 32
    } else {
        ((d[1] as int) / 16) % 8
    }
}

/// Scale-factor selection information: 2 + 2 bits for mono, 4 + 4 bits for
/// stereo, the bits of byte 1 ahead of those of byte 2.
pub open spec fn scfsi_of(d: Seq<u8>, is_mono: bool) -> int {
    if is_mono {
        ((d[1] as int) % 4) * 4 + (d[2] as int) / 64
    } else {
        ((d[1] as int) % 16) * 16 + (d[2] as int) / 16
    }
}

/// Part 2/3 length: the low 6 bits of byte 2 then the top 6 of byte 3 for mono;
/// for stereo, big-endian from the low 4 bits of byte 2 through the top 4 of byte 5.
pub open spec fn part2_3_length_of(d: Seq<u8>, is_mono: bool) -> int {
    if is_mono {
        ((d[2] as int) % 64) * 64 + (d[3] as int) / 4
    } else {
        ((d[2] as int) % 16) * 0x100000 + (d[3] as int) * 0x1000 + (d[4] as int) * 16 + (d[5] as int) / 16
    }
}

/// The payload of one frame, header bytes included, and whether it is mono.
pub struct Mp3Body {
    pub data: Vec<u8>,
    pub is_mono: bool,
}

impl Mp3Body {
    pub fn new(data: Vec<u8>, is_mono: bool) -> (r: Mp3Body)
        ensures
            r.data@ == data@,
            r.is_mono == is_mono,
    {
        Mp3Body { data: data, is_mono: is_mono }
    }

    /// Offset back from this frame to where its main data begins.
    pub fn main_data_begin(&self) -> (r: u16)
        requires
            self.data@.len() >= 2,
        ensures
            r == main_data_begin_of(self.data@),
    {
        let b0 = self.data[0];
        let b1 = self.data[1];
        proof {
            assert((b0 as u16) << 1u16 | ((b1 >> 7u8) as u16) == (b0 as u16) * 2 + (b1 / 128) as u16)
                by (bit_vector);
        }
        (b0 as u16) << 1 | ((b1 >> 7) as u16)
    }

    /// The private bits of the side information.
    pub fn private_bits(&self) -> (r: u8)
        requires
            self.data@.len() >= 2,
        ensures
            r == private_bits_of(self.data@, self.is_mono),
    {
        let b1 = self.data[1];
        if self.is_mono {
            proof {
                assert((b1 & 0x7c) >> 2u8 == (b1 / 4) % 32) by (bit_vector);
            }
            (b1 & 0b_0111_1100) >> 2
        } else {
            proof {
                assert((b1 & 0x70) >> 4u8 == (b1 / 16) % 8) by (bit_vector);
            }
            (b1 & 0b_0111_0000) >> 4
        }
    }

    /// Scale-factor selection information.
    pub fn scfsi(&self) -> (r: u8)
        requires
            self.data@.len() >= 3,
        ensures
            r == scfsi_of(self.data@, self.is_mono),
    {
        let b1 = self.data[1];
        let b2 = self.data[2];
        if self.is_mono {
            proof {
                assert((b1 & 0x03) << 2u8 | (b2 & 0xc0) >> 6u8 == (b1 % 4) * 4 + b2 / 64)
                    by (bit_vector);
            }
            (b1 & 0b_0000_0011) << 2 | (b2 & 0b_1100_0000) >> 6
        } else {
            proof {
                assert((b1 & 0x0f) << 4u8 | (b2 & 0xf0) >> 4u8 == (b1 % 16) * 16 + b2 / 16)
                    by (bit_vector);
            }
            (b1 & 0b_0000_1111) << 4 | (b2 & 0b_1111_0000) >> 4
        }
    }

    /// Number of bits of scale factors and Huffman data.
    pub fn part2_3_length(&self) -> (r: u32)
        requires
            self.data@.len() >= if self.is_mono {
                4int
            } else {
                6int
            },
        ensures
            r == part2_3_length_of(self.data@, self.is_mono),
    {
        if self.is_mono {
            let b2 = self.data[2] as u32;
            let b3 = self.data[3] as u32;
            proof {
                assert((b2 & 0x3f) << 6u32 | (b3 & 0xfc) >> 2u32 == (b2 % 64) * 64 + b3 / 4)
                    by (bit_vector)
                    requires
                        b2 < 256,
                        b3 < 256,
                ;
            }
            (b2 & 0b_0011_1111) << 6 | (b3 & 0b_1111_1100) >> 2
        } else {
            let b2 = self.data[2] as u32;
            let b3 = self.data[3] as u32;
            let b4 = self.data[4] as u32;
            let b5 = self.data[5] as u32;
            proof {
                assert((b2 & 0x0f) << 20u32 | b3 << 12u32 | b4 << 4u32 | (b5 & 0xf0) >> 4u32
                    == (b2 % 16) * 0x100000 + b3 * 0x1000 + b4 * 16 + b5 / 16)
                    by (bit_vector)
                    requires
                        b2 < 256,
                        b3 < 256,
                        b4 < 256,
                        b5 < 256,
                ;
            }
            (b2 & 0b_0000_1111) << 20 | b3 << 12 | b4 << 4 | (b5 & 0b_1111_0000) >> 4
        }
    }
}

} // verus!
