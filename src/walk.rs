//! Walking a buffer frame by frame.
//!
//! The walk starts at the ID3 offset and reads one header after another. A
//! frame whose nominal length runs past the end of the buffer is cut at the
//! end. Fewer than four bytes left over at the end are no header: the walk
//! stops there. A header whose bitrate or sample rate resolves to no table
//! entry ends the walk with one last frame that holds every remaining byte.
use vstd::prelude::*;
use vstd::slice::{slice_subrange, slice_to_vec};

use crate::id3::{get_id3_offset, id3_offset, starts_with_id3};
use crate::mp3_frame::{is_mono_header, Mp3Frame};
use crate::mp3_header::{
    frame_length_of, has_frame_length, lemma_frame_length_positive, sample_rate_index_bits,
    Mp3FrameHeader,
};
use crate::MPeakError;

verus! {

/// Where one frame of a walk lies in the buffer: its header word and the byte
/// range `start..end` of its payload.
pub struct FrameSpan {
    pub header: u32,
    pub start: int,
    pub end: int,
}

/// The four bytes at `off` read as a big-endian word.
pub open spec fn be_word_at(d: Seq<u8>, off: int) -> u32 {
    (d[off] as int * 0x1000000 + d[off + 1] as int * 0x10000 + d[off + 2] as int * 0x100 + d[off
        + 3] as int) as u32
}

/// The frames that a walk starting at `off` finds.
pub open spec fn walk_from(d: Seq<u8>, off: int) -> Seq<FrameSpan>
    decreases d.len() - off,
    via walk_from_decreases
{
    if off < 0 || off + 4 > d.len() {
        Seq::empty()
    } else {
        let w = be_word_at(d, off);
        if has_frame_length(w) {
            let next = off + frame_length_of(w);
            let end = if next <= d.len() {
                next
            } else {
                d.len() as int
            };
            seq![FrameSpan { header: w, start: off, end: end }] + walk_from(d, end)
        } else {
            seq![FrameSpan { header: w, start: off, end: d.len() as int }]
        }
    }
}

proof fn lemma_step_advances(d: Seq<u8>, off: int)
    ensures
        off >= 0 && off + 4 <= d.len() && has_frame_length(be_word_at(d, off)) ==> frame_length_of(
            be_word_at(d, off),
        ) > 0,
{
    if off >= 0 && off + 4 <= d.len() && has_frame_length(be_word_at(d, off)) {
        lemma_frame_length_positive(be_word_at(d, off));
    }
}

#[via_fn]
proof fn walk_from_decreases(d: Seq<u8>, off: int) {
    lemma_step_advances(d, off);
}

/// The frames of the whole buffer.
pub open spec fn walk(d: Seq<u8>) -> Seq<FrameSpan> {
    walk_from(d, id3_offset(d))
}

/// Frame `f` is the frame that span `s` of buffer `d` describes, at position `i`.
pub open spec fn frame_matches(f: Mp3Frame, d: Seq<u8>, s: FrameSpan, i: int) -> bool {
    &&& f.header@ == s.header
    &&& f.body.data@ == d.subrange(s.start, s.end)
    &&& f.body.is_mono == is_mono_header(s.header)
    &&& f.position == i
}

/// Reads the four bytes at `offset` as a big-endian word.
fn read_be_u32(data: &Vec<u8>, offset: usize) -> (r: u32)
    requires
        offset + 4 <= data@.len(),
    ensures
        r == be_word_at(data@, offset as int),
{
    // The length of a vector fits in usize, and so do the indices below.
    let _len = data.len();
    let b0 = data[offset] as u32;
    let b1 = data[offset + 1] as u32;
    let b2 = data[offset + 2] as u32;
    let b3 = data[offset + 3] as u32;
    proof {
        assert(b0 << 24u32 | b1 << 16u32 | b2 << 8u32 | b3 == b0 * 0x1000000 + b1 * 0x10000 + b2
            * 0x100 + b3) by (bit_vector)
            requires
                b0 < 256,
                b1 < 256,
                b2 < 256,
                b3 < 256,
        ;
    }
    b0 << 24 | b1 << 16 | b2 << 8 | b3
}

/// Decodes the header of the first frame, the four bytes at the ID3 offset.
pub fn get_first_mp3_frame_header(data: &Vec<u8>) -> (r: Mp3FrameHeader)
    requires
        id3_offset(data@) + 4 <= data@.len(),
    ensures
        r@ == be_word_at(data@, id3_offset(data@)),
{
    let offset = get_id3_offset(data) as usize;
    Mp3FrameHeader::new(read_be_u32(data, offset))
}

/// Splits the buffer into its frames, in buffer order, numbered from 0. The
/// walk never fails: a header that gives no frame length ends it with one
/// frame that holds the rest of the buffer.
pub fn get_frames(data: &Vec<u8>) -> (r: Result<Vec<Mp3Frame>, MPeakError>)
    requires
        data@.len() <= u32::MAX,
    ensures
        r is Ok,
        r->Ok_0@.len() == walk(data@).len(),
        forall|i: int|
            0 <= i < r->Ok_0@.len() ==> #[trigger] frame_matches(
                r->Ok_0@[i],
                data@,
                walk(data@)[i],
                i,
            ),
{
    let ghost d = data@;
    let ghost spans = walk(d);
    let mut offset: usize = get_id3_offset(data) as usize;
    let mut frames: Vec<Mp3Frame> = Vec::new();
    let mut curr_pos: u32 = 0;
    while offset < data.len() && data.len() - offset >= 4
        invariant
            d == data@,
            spans == walk(d),
            d.len() <= u32::MAX,
            curr_pos <= spans.len(),
            curr_pos <= offset,
            frames@.len() == curr_pos,
            spans.skip(curr_pos as int) == walk_from(d, offset as int),
            forall|i: int|
                0 <= i < curr_pos ==> #[trigger] frame_matches(frames@[i], d, spans[i], i),
        decreases data.len() - offset,
    {
        let header = Mp3FrameHeader::new(read_be_u32(data, offset));
        let ghost rest = walk_from(d, offset as int);
        proof {
            assert(rest.len() > 0);
            assert(spans[curr_pos as int] == spans.skip(curr_pos as int)[0]);
        }
        match header.frame_length() {
            Ok(frame_length) => {
                let end: usize = if frame_length <= data.len() - offset {
                    offset + frame_length
                } else {
                    data.len()
                };
                let frame_data = slice_to_vec(slice_subrange(data.as_slice(), offset, end));
                frames.push(Mp3Frame::new(header, frame_data, curr_pos));
                proof {
                    assert(rest.skip(1) =~= walk_from(d, end as int));
                    assert(spans.skip(curr_pos + 1) =~= rest.skip(1));
                }
                offset = end;
                curr_pos += 1;
            },
            Err(_) => {
                let frame_data = slice_to_vec(slice_subrange(data.as_slice(), offset, data.len()));
                frames.push(Mp3Frame::new(header, frame_data, curr_pos));
                proof {
                    assert(spans.skip(curr_pos + 1) =~= rest.skip(1));
                }
                offset = data.len();
                curr_pos += 1;
            },
        }
    }
    proof {
        assert(walk_from(d, offset as int).len() == 0);
    }
    Ok(frames)
}

/// Where a walk starting at `off` stops: the end of its last frame, or `off`
/// itself when it finds no frame.
pub open spec fn walk_end_from(d: Seq<u8>, off: int) -> int
    decreases d.len() - off,
    via walk_end_from_decreases
{
    if off < 0 || off + 4 > d.len() {
        off
    } else {
        let w = be_word_at(d, off);
        if has_frame_length(w) {
            let next = off + frame_length_of(w);
            walk_end_from(d, if next <= d.len() { next } else { d.len() as int })
        } else {
            d.len() as int
        }
    }
}

#[via_fn]
proof fn walk_end_from_decreases(d: Seq<u8>, off: int) {
    lemma_step_advances(d, off);
}

/// Total number of payload bytes in a sequence of frames.
pub open spec fn payload_total(spans: Seq<FrameSpan>) -> int
    decreases spans.len(),
{
    if spans.len() == 0 {
        0
    } else {
        (spans[0].end - spans[0].start) + payload_total(spans.skip(1))
    }
}

proof fn lemma_walk_from_tiles(d: Seq<u8>, off: int)
    requires
        0 <= off,
    ensures
        off + payload_total(walk_from(d, off)) == walk_end_from(d, off),
        off <= d.len() ==> off <= walk_end_from(d, off) <= d.len(),
        off <= d.len() ==> d.len() - 4 < walk_end_from(d, off),
        walk_from(d, off).len() > 0 ==> walk_from(d, off)[0].start == off,
        forall|i: int|
            0 <= i < walk_from(d, off).len() ==> off <= (#[trigger] walk_from(d, off)[i]).start
                <= walk_from(d, off)[i].end <= d.len(),
        forall|i: int|
            0 <= i < walk_from(d, off).len() - 1 ==> (#[trigger] walk_from(d, off)[i]).end
                == walk_from(d, off)[i + 1].start,
        walk_from(d, off).len() > 0 ==> walk_from(d, off)[walk_from(d, off).len() - 1].end
            == walk_end_from(d, off),
    decreases d.len() - off,
{
    let spans = walk_from(d, off);
    if off + 4 <= d.len() {
        let w = be_word_at(d, off);
        if has_frame_length(w) {
            lemma_frame_length_positive(w);
            let next = off + frame_length_of(w);
            let end = if next <= d.len() {
                next
            } else {
                d.len() as int
            };
            lemma_walk_from_tiles(d, end);
            let rest = walk_from(d, end);
            assert(spans.skip(1) =~= rest);
            assert forall|i: int| 0 <= i < spans.len() implies off <= (#[trigger] spans[i]).start
                <= spans[i].end <= d.len() by {
                if i > 0 {
                    assert(spans[i] == rest[i - 1]);
                }
            }
            assert forall|i: int| 0 <= i < spans.len() - 1 implies (#[trigger] spans[i]).end
                == spans[i + 1].start by {
                if i > 0 {
                    assert(spans[i] == rest[i - 1]);
                }
            }
        } else {
            assert(spans.skip(1) =~= Seq::<FrameSpan>::empty());
            assert(payload_total(spans.skip(1)) == 0);
        }
    }
}

/// The frames of a walk tile the buffer: the first starts at the ID3 offset,
/// each starts where the one before ends, and the ID3 offset plus the sizes of
/// all payloads is where the walk stops. When the ID3 offset lies within the
/// buffer, the walk stops inside it, fewer than four bytes before its end.
pub proof fn lemma_walk_consumes_buffer(d: Seq<u8>)
    ensures
        id3_offset(d) + payload_total(walk(d)) == walk_end_from(d, id3_offset(d)),
        walk(d).len() > 0 ==> walk(d)[0].start == id3_offset(d),
        forall|i: int|
            0 <= i < walk(d).len() - 1 ==> (#[trigger] walk(d)[i]).end == walk(d)[i + 1].start,
        forall|i: int|
            0 <= i < walk(d).len() ==> id3_offset(d) <= (#[trigger] walk(d)[i]).start
                <= walk(d)[i].end <= d.len(),
        id3_offset(d) <= d.len() ==> d.len() - 4 < walk_end_from(d, id3_offset(d)) <= d.len(),
{
    lemma_walk_from_tiles(d, id3_offset(d));
}

/// From `off` on, the buffer is a sequence of whole frames, each with a valid
/// header, the last one ending exactly at the end of the buffer.
pub open spec fn whole_frames_from(d: Seq<u8>, off: int) -> bool
    decreases d.len() - off,
    via whole_frames_from_decreases
{
    if off == d.len() {
        true
    } else if off < 0 || off + 4 > d.len() {
        false
    } else {
        let w = be_word_at(d, off);
        has_frame_length(w) && off + frame_length_of(w) <= d.len() && whole_frames_from(
            d,
            off + frame_length_of(w),
        )
    }
}

#[via_fn]
proof fn whole_frames_from_decreases(d: Seq<u8>, off: int) {
    lemma_step_advances(d, off);
}

proof fn lemma_tail_ignored_from(d: Seq<u8>, tail: Seq<u8>, off: int)
    requires
        whole_frames_from(d, off),
        tail.len() < 4,
    ensures
        walk_from(d + tail, off) == walk_from(d, off),
    decreases d.len() - off,
{
    let e = d + tail;
    if off == d.len() {
        assert(walk_from(e, off) =~= walk_from(d, off));
    } else {
        let w = be_word_at(d, off);
        lemma_frame_length_positive(w);
        assert(be_word_at(e, off) == w);
        let next = off + frame_length_of(w);
        lemma_tail_ignored_from(d, tail, next);
        assert(walk_from(e, off) =~= walk_from(d, off));
    }
}

/// A walk that reaches the end of a buffer made of whole frames gives the same
/// frames when up to three more bytes follow: a header cut to fewer than four
/// bytes ends the walk without a frame and without an error.
pub proof fn lemma_truncated_header_ends_walk(d: Seq<u8>, tail: Seq<u8>)
    requires
        id3_offset(d) < d.len(),
        whole_frames_from(d, id3_offset(d)),
        tail.len() < 4,
    ensures
        id3_offset(d + tail) == id3_offset(d),
        walk(d + tail) == walk(d),
{
    let e = d + tail;
    let off = id3_offset(d);
    assert(off + 4 <= d.len());
    assert(e[0] == d[0] && e[1] == d[1] && e[2] == d[2]);
    if starts_with_id3(d) {
        assert(e[6] == d[6] && e[7] == d[7] && e[8] == d[8] && e[9] == d[9]);
    }
    lemma_tail_ignored_from(d, tail, off);
}

/// A header whose sample-rate index is the reserved value 3 ends the walk with
/// a single frame that holds every byte from that header to the end of the buffer.
pub proof fn lemma_reserved_sample_rate_ends_walk(d: Seq<u8>, off: int)
    requires
        0 <= off,
        off + 4 <= d.len(),
        sample_rate_index_bits(be_word_at(d, off)) == 3,
    ensures
        walk_from(d, off) == seq![FrameSpan { header: be_word_at(d, off), start: off, end: d.len() as int }],
{
}

} // verus!
