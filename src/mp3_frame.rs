//! One audio frame: its header, its payload and its place in the stream.
use vstd::prelude::*;

use crate::mp3_body::Mp3Body;
use crate::mp3_header::{channel_mode_of, Mp3ChannelMode, Mp3FrameHeader};

verus! {

pub struct Mp3Frame {
    pub header: Mp3FrameHeader,
    pub body: Mp3Body,
    pub position: u32,
}

/// Whether header word `w` marks a mono (single channel) frame.
pub open spec fn is_mono_header(w: u32) -> bool {
    channel_mode_of(w) == Mp3ChannelMode::SingleChannel
}

impl Mp3Frame {
    pub fn new(header: Mp3FrameHeader, data: Vec<u8>, position: u32) -> (r: Mp3Frame)
        ensures
            r.header == header,
            r.body.data@ == data@,
            r.body.is_mono == is_mono_header(header@),
            r.position == position,
    {
        let is_mono = header.channel_mode() == Mp3ChannelMode::SingleChannel;
        Mp3Frame { header: header, body: Mp3Body::new(data, is_mono), position: position }
    }
}

} // verus!
