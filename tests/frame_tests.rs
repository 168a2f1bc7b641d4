use mpeak::{
    get_first_mp3_frame_header, get_frames, mix_frames, MPeakError, Mp3ChannelMode, Mp3Frame,
    Mp3FrameHeader, Mp3Version,
};

// MPEG-2 Layer III, 8 kbit/s, 24000 Hz: 48-byte frames (49 with padding).
const SMALL: [u8; 4] = [0xFF, 0xF3, 0x14, 0x00];
const SMALL_PADDED: [u8; 4] = [0xFF, 0xF3, 0x16, 0x00];
// Same, single channel.
const SMALL_MONO: [u8; 4] = [0xFF, 0xF3, 0x14, 0xC0];

fn frame_bytes(header: [u8; 4], len: usize, fill: u8) -> Vec<u8> {
    let mut v = header.to_vec();
    v.resize(len, fill);
    v
}

fn id3_block(size: u8) -> Vec<u8> {
    let mut v = vec![0x49, 0x44, 0x33, 0x04, 0x00, 0x00, 0x00, 0x00, 0x00, size];
    v.resize(10 + size as usize, 0x20);
    v
}

#[test]
fn walk_numbers_frames_and_covers_buffer() {
    let mut data = id3_block(5);
    data.extend(frame_bytes(SMALL, 48, 1));
    data.extend(frame_bytes(SMALL_PADDED, 49, 2));
    data.extend(frame_bytes(SMALL_MONO, 48, 3));
    let frames = get_frames(&data).unwrap();
    assert_eq!(frames.len(), 3);
    let mut consumed = 15;
    for (i, f) in frames.iter().enumerate() {
        assert_eq!(f.position, i as u32);
        assert_eq!(f.body.data[..], data[consumed..consumed + f.body.data.len()]);
        consumed += f.body.data.len();
    }
    assert_eq!(consumed, data.len());
    assert_eq!(frames[0].body.data.len(), 48);
    assert_eq!(frames[1].body.data.len(), 49);
    assert!(!frames[0].body.is_mono);
    assert!(frames[2].body.is_mono);
    assert_eq!(frames[2].header.channel_mode(), Mp3ChannelMode::SingleChannel);
    assert_eq!(frames[1].header, Mp3FrameHeader::new(0xFFF3_1600));
}

#[test]
fn walk_of_empty_buffer_has_no_frames() {
    assert_eq!(get_frames(&vec![]).unwrap().len(), 0);
    assert_eq!(get_frames(&id3_block(0)).unwrap().len(), 0);
}

#[test]
fn truncated_trailing_header_ends_walk_cleanly() {
    let mut data = frame_bytes(SMALL, 48, 1);
    data.extend(frame_bytes(SMALL, 48, 2));
    let whole = get_frames(&data).unwrap();
    for extra in 1..4 {
        let mut cut = data.clone();
        cut.extend(&SMALL[..extra]);
        let frames = get_frames(&cut).unwrap();
        assert_eq!(frames.len(), whole.len());
        for (a, b) in frames.iter().zip(whole.iter()) {
            assert_eq!(a.body.data, b.body.data);
            assert_eq!(a.position, b.position);
            assert_eq!(a.header, b.header);
        }
    }
}

#[test]
fn truncated_trailing_frame_is_cut_at_buffer_end() {
    let mut data = frame_bytes(SMALL, 48, 1);
    data.extend(frame_bytes(SMALL, 20, 2));
    let frames = get_frames(&data).unwrap();
    assert_eq!(frames.len(), 2);
    assert_eq!(frames[1].body.data.len(), 20);
    assert_eq!(frames[1].body.data[..], data[48..]);
}

#[test]
fn reserved_sample_rate_gives_one_salvage_frame() {
    let mut data = frame_bytes(SMALL, 48, 1);
    // sample-rate index 3
    data.extend(vec![0xFF, 0xF3, 0x1C, 0x00, 9, 9, 9]);
    data.extend(frame_bytes(SMALL, 48, 1));
    let frames = get_frames(&data).unwrap();
    assert_eq!(frames.len(), 2);
    assert_eq!(frames[1].position, 1);
    assert_eq!(frames[1].header.sampling_rate_index(), 3);
    assert_eq!(frames[1].header.frame_length(), Err(MPeakError::InvalidMp3Header));
    assert_eq!(frames[1].body.data[..], data[48..]);
}

#[test]
fn id3_block_longer_than_buffer_gives_no_frames() {
    let mut data = id3_block(0);
    data[9] = 100;
    data.extend(frame_bytes(SMALL, 48, 1));
    assert_eq!(get_frames(&data).unwrap().len(), 0);
}

#[test]
fn first_header_follows_id3_block() {
    let mut data = id3_block(3);
    data.extend(frame_bytes(SMALL_PADDED, 49, 0));
    let header = get_first_mp3_frame_header(&data);
    assert_eq!(header, Mp3FrameHeader::new(0xFFF3_1600));
    assert_eq!(header.version(), Mp3Version::V2);
    assert!(header.padding_bit());
}

#[test]
fn mix_takes_each_payload_from_the_chosen_stream() {
    let a = get_frames(&[frame_bytes(SMALL, 48, 1), frame_bytes(SMALL, 48, 2)].concat()).unwrap();
    let b = get_frames(
        &[frame_bytes(SMALL_PADDED, 49, 7), frame_bytes(SMALL_PADDED, 49, 8), frame_bytes(SMALL, 48, 9)]
            .concat(),
    )
    .unwrap();
    let mixed = mix_frames(&a, &b, &vec![true, false, true]);
    let expected = [a[0].body.data.clone(), b[1].body.data.clone()].concat();
    assert_eq!(mixed, expected);
    assert_eq!(mixed.len(), 48 + 49);
    let frames: Vec<Mp3Frame> = Vec::new();
    assert_eq!(mix_frames(&frames, &b, &vec![]), Vec::<u8>::new());
}
