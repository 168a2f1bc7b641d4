use mpeak::{get_id3_data, get_id3_offset, has_id3, is_mp3_file};

#[test]
fn test_is_mp3_file_empty() {
    assert_eq!(is_mp3_file(&vec![]), false);
}

#[test]
fn test_is_mp3_file_no_id3() {
    assert_eq!(is_mp3_file(&vec![0xFF]), false);
    assert_eq!(is_mp3_file(&vec![0xFF, 0xFB]), true);
}

#[test]
fn test_is_mp3_file_id3() {
    assert_eq!(is_mp3_file(&vec![0x49]), false);
    assert_eq!(is_mp3_file(&vec![0x49, 0x44]), false);
    assert_eq!(is_mp3_file(&vec![0x49, 0x44, 0x33]), true);
}

#[test]
fn test_has_id3() {
    assert_eq!(is_mp3_file(&vec![0x49]), false);
    assert_eq!(is_mp3_file(&vec![0x49, 0x44]), false);
    assert_eq!(is_mp3_file(&vec![0x49, 0x44, 0x33]), true);
    assert_eq!(is_mp3_file(&vec![0x49, 0x44, 0x33, 0x90]), true);
}

#[test]
fn test_get_id3_offset() {
    assert_eq!(
        get_id3_offset(&vec![
            0x49, 0x44, 0x33, 0x90, 0x0, 0x0, // id3 header
            0x0, 0x0, 0x0, 0x0, // length bits
        ]),
        10 + 0
    );

    assert_eq!(
        get_id3_offset(&vec![
            0x49, 0x44, 0x33, 0x90, 0x0, 0x0, // id3 header
            0x0, 0x0, 0x0, 0x1, // length bits
        ]),
        10 + 1
    );

    assert_eq!(
        get_id3_offset(&vec![
            0x49, 0x44, 0x33, 0x90, 0x0, 0x0, // id3 header
            0x0, 0x0, 0x1, 0x1, // length bits
        ]),
        10 + 128 + 1
    );

    assert_eq!(
        get_id3_offset(&vec![
            0x49,
            0x44,
            0x33,
            0x90,
            0x0,
            0x0, // id3 header
            0b0111_1111,
            0b0111_1111,
            0b0111_1111,
            0b0111_1111, // length bits
        ]),
        10 + 0b1111111_1111111_1111111_1111111
    );
}

#[test]
fn short_buffers_are_not_mp3() {
    assert!(!is_mp3_file(&vec![]));
    assert!(!is_mp3_file(&vec![0xFF]));
    assert!(!is_mp3_file(&vec![0x49]));
    assert!(!is_mp3_file(&vec![0x00]));
}

#[test]
fn frame_sync_patterns() {
    assert!(is_mp3_file(&vec![0xFF, 0xFB, 0x90, 0x00]));
    assert!(is_mp3_file(&vec![0xFF, 0xF3]));
    assert!(is_mp3_file(&vec![0xFF, 0xF2]));
    assert!(!is_mp3_file(&vec![0xFF, 0xAA]));
    assert!(!is_mp3_file(&vec![0xFF, 0xFA]));
    assert!(!is_mp3_file(&vec![0xFE, 0xFB]));
}

#[test]
fn id3_signature_sniff() {
    assert!(is_mp3_file(&vec![0x49, 0x44, 0x33, 0x04, 0x00]));
    assert!(!is_mp3_file(&vec![0x49, 0x44]));
    assert!(!is_mp3_file(&vec![0x49, 0x44, 0x34]));
}

#[test]
fn has_id3_needs_all_three_bytes() {
    assert!(!has_id3(&vec![]));
    assert!(!has_id3(&vec![0x49, 0x44]));
    assert!(has_id3(&vec![0x49, 0x44, 0x33]));
    assert!(!has_id3(&vec![0xFF, 0xFB, 0x90]));
}

#[test]
fn id3_offset_without_block_is_zero() {
    assert_eq!(get_id3_offset(&vec![]), 0);
    assert_eq!(get_id3_offset(&vec![0xFF, 0xFB, 0x90, 0x00]), 0);
}

#[test]
fn id3_offset_of_cut_header_is_buffer_length() {
    assert_eq!(get_id3_offset(&vec![0x49, 0x44, 0x33]), 3);
    assert_eq!(get_id3_offset(&vec![0x49, 0x44, 0x33, 0x04, 0, 0, 0, 0, 1]), 9);
}

#[test]
fn id3_offset_ignores_high_bits() {
    let data = vec![0x49, 0x44, 0x33, 0x04, 0, 0, 0x80, 0x80, 0x81, 0x81];
    assert_eq!(get_id3_offset(&data), 10 + 128 + 1);
}

#[test]
fn id3_data_is_the_block() {
    let data = vec![0x49, 0x44, 0x33, 0x04, 0, 0, 0, 0, 0, 2, 0xAA, 0xBB, 0xFF, 0xFB];
    assert_eq!(get_id3_data(&data), vec![0x49, 0x44, 0x33, 0x04, 0, 0, 0, 0, 0, 2, 0xAA, 0xBB]);
    assert_eq!(get_id3_data(&vec![0xFF, 0xFB, 0x90, 0x00]), Vec::<u8>::new());
}

#[test]
fn id3_data_stops_at_buffer_end() {
    let data = vec![0x49, 0x44, 0x33, 0x04, 0, 0, 0, 0, 0, 100, 0xAA];
    assert_eq!(get_id3_data(&data), data);
}
