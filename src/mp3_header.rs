//! The 32-bit MPEG audio frame header and the length of the frame it describes.
//!
//! Bit layout, most significant bit first:
//!
//! ```text
//!            AAAAAAAA AAABBCCD EEEEFFGH IIJJKLMM
//! sync:      11111111 11100000 00000000 00000000
//! version:   00000000 00011000 00000000 00000000
//! layer:     00000000 00000110 00000000 00000000
//! protected: 00000000 00000001 00000000 00000000
//! bitrate:   00000000 00000000 11110000 00000000
//! sampling:  00000000 00000000 00001100 00000000
//! padding:   00000000 00000000 00000010 00000000
//! private:   00000000 00000000 00000001 00000000
//! channel:   00000000 00000000 00000000 11000000
//! mode ext:  00000000 00000000 00000000 00110000
//! copyright: 00000000 00000000 00000000 00001000
//! original:  00000000 00000000 00000000 00000100
//! emphasis:  00000000 00000000 00000000 00000011
//! ```
use vstd::prelude::*;

use vstd::arithmetic::div_mod::{lemma_div_is_ordered, lemma_div_is_ordered_by_denominator};

use crate::MPeakError;

verus! {

#[derive(Debug, Clone, Copy, PartialEq, Eq, Structural)]
pub enum Mp3Version {
    V25,
    Reserved,
    V2,
    V1,
}

#[derive(Debug, Clone, Copy, PartialEq, Eq, Structural)]
pub enum Mp3Layer {
    Reserved,
    Layer3,
    Layer2,
    Layer1,
}

#[derive(Debug, Clone, Copy, PartialEq, Eq, Structural)]
pub enum Mp3Protection {
    ProtectedByCrc,
    NotProtected,
}

#[derive(Debug, Clone, Copy, PartialEq, Eq, Structural)]
pub enum Mp3ChannelMode {
    Stereo,
    JointStereo,
    DualChannel,
    SingleChannel,
}

#[allow(non_camel_case_types)]
#[derive(Debug, Clone, Copy, PartialEq, Eq, Structural)]
pub enum Mp3Emphasis {
    NoEmphasis,
    _50_15Ms,
    Reserved,
    CcitJ17,
}

// Raw bit fields of a header word.

pub open spec fn version_bits(w: u32) -> u32 {
    (w >> 19u32) & 3
}

pub open spec fn layer_bits(w: u32) -> u32 {
    (w >> 17u32) & 3
}

pub open spec fn protection_bit(w: u32) -> u32 {
    (w >> 16u32) & 1
}

pub open spec fn bitrate_index_bits(w: u32) -> u32 {
    (w >> 12u32) & 0xf
}

pub open spec fn sample_rate_index_bits(w: u32) -> u32 {
    (w >> 10u32) & 3
}

pub open spec fn padding_bit_of(w: u32) -> bool {
    (w >> 9u32) & 1 == 1
}

pub open spec fn private_bit_of(w: u32) -> bool {
    (w >> 8u32) & 1 == 1
}

pub open spec fn channel_mode_bits(w: u32) -> u32 {
    (w >> 6u32) & 3
}

pub open spec fn mode_extension_bits(w: u32) -> u32 {
    (w >> 4u32) & 3
}

pub open spec fn copyright_bit_of(w: u32) -> bool {
    (w >> 3u32) & 1 == 1
}

pub open spec fn original_bit_of(w: u32) -> bool {
    (w >> 2u32) & 1 == 1
}

pub open spec fn emphasis_bits(w: u32) -> u32 {
    w & 3
}

// Meaning of the two-bit fields.

pub open spec fn version_of(w: u32) -> Mp3Version {
    let b = version_bits(w);
    if b == 0 {
        Mp3Version::V25
    } else if b == 1 {
        Mp3Version::Reserved
    } else if b == 2 {
        Mp3Version::V2
    } else {
        Mp3Version::V1
    }
}

pub open spec fn layer_of(w: u32) -> Mp3Layer {
    let b = layer_bits(w);
    if b == 0 {
        Mp3Layer::Reserved
    } else if b == 1 {
        Mp3Layer::Layer3
    } else if b == 2 {
        Mp3Layer::Layer2
    } else {
        Mp3Layer::Layer1
    }
}

pub open spec fn protection_of(w: u32) -> Mp3Protection {
    if protection_bit(w) == 1 {
        Mp3Protection::NotProtected
    } else {
        Mp3Protection::ProtectedByCrc
    }
}

pub open spec fn channel_mode_of(w: u32) -> Mp3ChannelMode {
    let b = channel_mode_bits(w);
    if b == 0 {
        Mp3ChannelMode::Stereo
    } else if b == 1 {
        Mp3ChannelMode::JointStereo
    } else if b == 2 {
        Mp3ChannelMode::DualChannel
    } else {
        Mp3ChannelMode::SingleChannel
    }
}

pub open spec fn emphasis_of(w: u32) -> Mp3Emphasis {
    let b = emphasis_bits(w);
    if b == 0 {
        Mp3Emphasis::NoEmphasis
    } else if b == 1 {
        Mp3Emphasis::_50_15Ms
    } else if b == 2 {
        Mp3Emphasis::Reserved
    } else {
        Mp3Emphasis::CcitJ17
    }
}

// Standard tables: bitrates in kbit/s by bitrate index, sample rates in Hz
// by sample-rate index. Zero marks a free-format, reserved or invalid entry.

pub open spec fn bitrate_table(version: Mp3Version, layer: Mp3Layer) -> Seq<u16> {
    let none = seq![0u16, 0, 0, 0, 0, 0, 0, 0, 0, 0, 0, 0, 0, 0, 0, 0];
    match version {
        Mp3Version::V1 => match layer {
            Mp3Layer::Layer1 => seq![0u16, 32, 64, 96, 128, 160, 192, 224, 256, 288, 320, 352, 384, 416, 448, 0],
            Mp3Layer::Layer2 => seq![0u16, 32, 48, 56, 64, 80, 96, 112, 128, 160, 192, 224, 256, 320, 384, 0],
            Mp3Layer::Layer3 => seq![0u16, 32, 40, 48, 56, 64, 80, 96, 112, 128, 160, 192, 224, 256, 320, 0],
            Mp3Layer::Reserved => none,
        },
        Mp3Version::V2 | Mp3Version::V25 => match layer {
            Mp3Layer::Layer1 => seq![0u16, 32, 48, 56, 64, 80, 96, 112, 128, 144, 160, 176, 192, 224, 256, 0],
            Mp3Layer::Layer2 | Mp3Layer::Layer3 => seq![0u16, 8, 16, 24, 32, 40, 48, 56, 64, 80, 96, 112, 128, 144, 160, 0],
            Mp3Layer::Reserved => none,
        },
        Mp3Version::Reserved => none,
    }
}

pub open spec fn sample_rate_table(version: Mp3Version) -> Seq<u16> {
    match version {
        Mp3Version::V1 => seq![44100u16, 48000, 32000, 0],
        Mp3Version::V2 => seq![22050u16, 24000, 16000, 0],
        Mp3Version::V25 => seq![11025u16, 12000, 8000, 0],
        Mp3Version::Reserved => seq![0u16, 0, 0, 0],
    }
}

/// Bitrate in kbit/s that header word `w` selects (0 when none).
pub open spec fn bitrate_of(w: u32) -> int {
    bitrate_table(version_of(w), layer_of(w))[bitrate_index_bits(w) as int] as int
}

/// Sample rate in Hz that header word `w` selects (0 when none).
pub open spec fn sample_rate_of(w: u32) -> int {
    sample_rate_table(version_of(w))[sample_rate_index_bits(w) as int] as int
}

/// A header describes a frame of computable length only when both its bitrate
/// and its sample rate resolve to a nonzero table entry.
pub open spec fn has_frame_length(w: u32) -> bool {
    bitrate_of(w) != 0 && sample_rate_of(w) != 0
}

/// Length in bytes, header included, of the frame that header word `w` describes.
pub open spec fn frame_length_of(w: u32) -> int {
    144 * bitrate_of(w) * 1000 / sample_rate_of(w) + if padding_bit_of(w) {
        1int
    } else {
        0int
    }
}

/// Each two-bit field decodes by itself: a word that holds only the value `b`
/// in the version, layer, channel-mode or emphasis position decodes to the
/// `b`-th entry of that field's table, and the protection bit alone decides
/// the protection.
pub proof fn lemma_isolated_fields_decode(b: u32)
    requires
        b < 4,
    ensures
        b == 0 ==> version_of(b << 19u32) == Mp3Version::V25 && layer_of(b << 17u32)
            == Mp3Layer::Reserved && channel_mode_of(b << 6u32) == Mp3ChannelMode::Stereo
            && emphasis_of(b) == Mp3Emphasis::NoEmphasis,
        b == 1 ==> version_of(b << 19u32) == Mp3Version::Reserved && layer_of(b << 17u32)
            == Mp3Layer::Layer3 && channel_mode_of(b << 6u32) == Mp3ChannelMode::JointStereo
            && emphasis_of(b) == Mp3Emphasis::_50_15Ms,
        b == 2 ==> version_of(b << 19u32) == Mp3Version::V2 && layer_of(b << 17u32)
            == Mp3Layer::Layer2 && channel_mode_of(b << 6u32) == Mp3ChannelMode::DualChannel
            && emphasis_of(b) == Mp3Emphasis::Reserved,
        b == 3 ==> version_of(b << 19u32) == Mp3Version::V1 && layer_of(b << 17u32)
            == Mp3Layer::Layer1 && channel_mode_of(b << 6u32) == Mp3ChannelMode::SingleChannel
            && emphasis_of(b) == Mp3Emphasis::CcitJ17,
        protection_of(0x10000) == Mp3Protection::NotProtected,
        protection_of(0) == Mp3Protection::ProtectedByCrc,
{
    assert(version_bits(b << 19u32) == b && layer_bits(b << 17u32) == b && channel_mode_bits(
        b << 6u32,
    ) == b && emphasis_bits(b) == b && protection_bit(0x10000) == 1 && protection_bit(0) == 0)
        by (bit_vector)
        requires
            b < 4,
    ;
}

/// A decoded frame header, kept as its raw 32-bit word.
#[derive(Debug, Clone, Copy, PartialEq, Eq, Structural)]
pub struct Mp3FrameHeader {
    data: u32,
}

impl View for Mp3FrameHeader {
    type V = u32;

    closed spec fn view(&self) -> u32 {
        self.data
    }
}

fn bitrate_kbps(version: Mp3Version, layer: Mp3Layer, index: u8) -> (r: u16)
    requires
        index < 16,
    ensures
        r == bitrate_table(version, layer)[index as int],
        r <= 448,
{
    let table: [u16; 16] = match version {
        Mp3Version::V1 => match layer {
            Mp3Layer::Layer1 => [0, 32, 64, 96, 128, 160, 192, 224, 256, 288, 320, 352, 384, 416, 448, 0],
            Mp3Layer::Layer2 => [0, 32, 48, 56, 64, 80, 96, 112, 128, 160, 192, 224, 256, 320, 384, 0],
            Mp3Layer::Layer3 => [0, 32, 40, 48, 56, 64, 80, 96, 112, 128, 160, 192, 224, 256, 320, 0],
            Mp3Layer::Reserved => [0; 16],
        },
        Mp3Version::V2 | Mp3Version::V25 => match layer {
            Mp3Layer::Layer1 => [0, 32, 48, 56, 64, 80, 96, 112, 128, 144, 160, 176, 192, 224, 256, 0],
            Mp3Layer::Layer2 | Mp3Layer::Layer3 => [0, 8, 16, 24, 32, 40, 48, 56, 64, 80, 96, 112, 128, 144, 160, 0],
            Mp3Layer::Reserved => [0; 16],
        },
        Mp3Version::Reserved => [0; 16],
    };
    proof {
        assert(table@ =~= bitrate_table(version, layer));
    }
    table[index as usize]
}

fn sample_rate_hz(version: Mp3Version, index: u8) -> (r: u16)
    requires
        index < 4,
    ensures
        r == sample_rate_table(version)[index as int],
        r == 0 || r >= 8000,
{
    let table: [u16; 4] = match version {
        Mp3Version::V1 => [44100, 48000, 32000, 0],
        Mp3Version::V2 => [22050, 24000, 16000, 0],
        Mp3Version::V25 => [11025, 12000, 8000, 0],
        Mp3Version::Reserved => [0; 4],
    };
    proof {
        assert(table@ =~= sample_rate_table(version));
    }
    table[index as usize]
}

proof fn lemma_frame_length_bounds(bitrate: int, sample_rate: int)
    requires
        1 <= bitrate <= 448,
        8000 <= sample_rate <= 48000,
    ensures
        3 <= 144 * bitrate * 1000 / sample_rate <= 8064,
{
    let x = 144 * bitrate * 1000;
    assert(144000 <= x <= 64512000) by (nonlinear_arith)
        requires
            x == 144 * bitrate * 1000,
            1 <= bitrate <= 448,
    ;
    lemma_div_is_ordered_by_denominator(x, sample_rate, 48000);
    lemma_div_is_ordered(144000, x, 48000);
    lemma_div_is_ordered_by_denominator(x, 8000, sample_rate);
    lemma_div_is_ordered(x, 64512000, 8000);
}

/// Every bitrate in the tables is at most 448 kbit/s; every sample rate is
/// either 0 or between 8000 and 48000 Hz.
proof fn lemma_rates_in_range(w: u32)
    ensures
        0 <= bitrate_of(w) <= 448,
        sample_rate_of(w) == 0 || 8000 <= sample_rate_of(w) <= 48000,
{
    assert(bitrate_index_bits(w) < 16) by (bit_vector);
    assert(sample_rate_index_bits(w) < 4) by (bit_vector);
}

/// A header with a computable frame length describes a frame of at least one
/// byte and at most 8065 bytes.
pub proof fn lemma_frame_length_positive(w: u32)
    requires
        has_frame_length(w),
    ensures
        0 < frame_length_of(w) <= 8065,
{
    lemma_rates_in_range(w);
    lemma_frame_length_bounds(bitrate_of(w), sample_rate_of(w));
}

impl Mp3FrameHeader {
    /// Header of the big-endian word `data`; every word decodes to some header.
    pub fn new(data: u32) -> (r: Mp3FrameHeader)
        ensures
            r@ == data,
    {
        Mp3FrameHeader { data: data }
    }

    /// MPEG version, bits 20-19.
    pub fn version(&self) -> (r: Mp3Version)
        ensures
            r == version_of(self@),
    {
        let bits: u32 = self.data >> 19 & 3;
        if bits == 0 {
            Mp3Version::V25
        } else if bits == 1 {
            Mp3Version::Reserved
        } else if bits == 2 {
            Mp3Version::V2
        } else {
            Mp3Version::V1
        }
    }

    /// Layer, bits 18-17.
    pub fn layer(&self) -> (r: Mp3Layer)
        ensures
            r == layer_of(self@),
    {
        let bits: u32 = self.data >> 17 & 3;
        if bits == 0 {
            Mp3Layer::Reserved
        } else if bits == 1 {
            Mp3Layer::Layer3
        } else if bits == 2 {
            Mp3Layer::Layer2
        } else {
            Mp3Layer::Layer1
        }
    }

    /// CRC protection, bit 16: a set bit means no CRC follows the header.
    pub fn protected(&self) -> (r: Mp3Protection)
        ensures
            r == protection_of(self@),
    {
        if self.data >> 16 & 1 == 1 {
            Mp3Protection::NotProtected
        } else {
            Mp3Protection::ProtectedByCrc
        }
    }

    /// Bitrate index, bits 15-12.
    pub fn bitrate_index(&self) -> (r: u8)
        ensures
            r as u32 == bitrate_index_bits(self@),
            r < 16,
    {
        let w = self.data;
        proof {
            assert(w >> 12u32 & 0xf < 16) by (bit_vector);
        }
        (w >> 12 & 0xf) as u8
    }

    /// Sample-rate index, bits 11-10.
    pub fn sampling_rate_index(&self) -> (r: u8)
        ensures
            r as u32 == sample_rate_index_bits(self@),
            r < 4,
    {
        let w = self.data;
        proof {
            assert(w >> 10u32 & 3 < 4) by (bit_vector);
        }
        (w >> 10 & 0x3) as u8
    }

    /// Padding bit, bit 9: the frame holds one extra byte.
    pub fn padding_bit(&self) -> (r: bool)
        ensures
            r == padding_bit_of(self@),
    {
        self.data >> 9 & 1 == 1
    }

    /// Private bit, bit 8.
    pub fn private_bit(&self) -> (r: bool)
        ensures
            r == private_bit_of(self@),
    {
        self.data >> 8 & 1 == 1
    }

    /// Channel mode, bits 7-6.
    pub fn channel_mode(&self) -> (r: Mp3ChannelMode)
        ensures
            r == channel_mode_of(self@),
    {
        let bits: u32 = self.data >> 6 & 3;
        if bits == 0 {
            Mp3ChannelMode::Stereo
        } else if bits == 1 {
            Mp3ChannelMode::JointStereo
        } else if bits == 2 {
            Mp3ChannelMode::DualChannel
        } else {
            Mp3ChannelMode::SingleChannel
        }
    }

    /// Mode extension, bits 5-4.
    pub fn mode_extension(&self) -> (r: u8)
        ensures
            r as u32 == mode_extension_bits(self@),
            r < 4,
    {
        let w = self.data;
        proof {
            assert(w >> 4u32 & 3 < 4) by (bit_vector);
        }
        (w >> 4 & 0x3) as u8
    }

    /// Copyright bit, bit 3.
    pub fn copyright(&self) -> (r: bool)
        ensures
            r == copyright_bit_of(self@),
    {
        self.data >> 3 & 1 == 1
    }

    /// Original bit, bit 2.
    pub fn original(&self) -> (r: bool)
        ensures
            r == original_bit_of(self@),
    {
        self.data >> 2 & 1 == 1
    }

    /// Emphasis, bits 1-0.
    pub fn emphasis(&self) -> (r: Mp3Emphasis)
        ensures
            r == emphasis_of(self@),
    {
        let bits: u32 = self.data & 3;
        if bits == 0 {
            Mp3Emphasis::NoEmphasis
        } else if bits == 1 {
            Mp3Emphasis::_50_15Ms
        } else if bits == 2 {
            Mp3Emphasis::Reserved
        } else {
            Mp3Emphasis::CcitJ17
        }
    }

    /// Length in bytes of the frame this header starts, header included.
    /// A header whose bitrate or sample rate resolves to no table entry
    /// (free format, a reserved version, layer or index) describes no
    /// frame of computable length and is rejected.
    pub fn frame_length(&self) -> (r: Result<usize, MPeakError>)
        ensures
            r == (if has_frame_length(self@) {
                Ok::<usize, MPeakError>(frame_length_of(self@) as usize)
            } else {
                Err::<usize, MPeakError>(MPeakError::InvalidMp3Header)
            }),
            has_frame_length(self@) ==> 0 < frame_length_of(self@) <= 8065,
    {
        let bitrate = bitrate_kbps(self.version(), self.layer(), self.bitrate_index());
        let sample_rate = sample_rate_hz(self.version(), self.sampling_rate_index());
        if bitrate == 0 || sample_rate == 0 {
            return Err(MPeakError::InvalidMp3Header);
        }
        let br = bitrate as u32;
        let sr = sample_rate as u32;
        proof {
            assert(144 * br * 1000 <= 64512000) by (nonlinear_arith)
                requires
                    br <= 448,
            ;
            lemma_frame_length_bounds(br as int, sr as int);
        }
        let frame_len: u32 = 144 * br * 1000 / sr;
        if self.padding_bit() {
            Ok((frame_len + 1) as usize)
        } else {
            Ok(frame_len as usize)
        }
    }
}

} // verus!
