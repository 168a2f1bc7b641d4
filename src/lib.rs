//! Structure of an MPEG audio (MP3) stream, read from a byte buffer: the
//! leading ID3 block, the frame headers, the frames and their side information.
pub mod id3;
pub mod mix;
pub mod mp3_body;
pub mod mp3_frame;
pub mod mp3_header;
pub mod walk;

pub use id3::{get_id3_data, get_id3_offset, has_id3, is_mp3_file};
pub use mix::mix_frames;
pub use mp3_body::Mp3Body;
pub use mp3_frame::Mp3Frame;
pub use walk::{get_first_mp3_frame_header, get_frames};
pub use mp3_header::{Mp3ChannelMode, Mp3Emphasis, Mp3FrameHeader, Mp3Layer, Mp3Protection, Mp3Version};

use vstd::prelude::*;

verus! {

#[derive(Debug, Clone, Copy, PartialEq, Eq, Structural)]
pub enum MPeakError {
    CannotOpenFile,
    CannotReadFile,
    InvalidMp3Header,
}

} // verus!
