use volcano::buffer::codec::{is_h264_keyframe, is_later_timestamp, is_timestamp_wrap_around, VP8};
use volcano::buffer::error::BufferError;

fn read(payload: &[u8]) -> Result<VP8, BufferError> {
    let mut vp8 = VP8::default();
    vp8.unmarshal(payload).map(|_| vp8)
}

#[test]
fn vp8_without_extensions() {
    let key = read(&[0x10, 0x00]).unwrap();
    assert!(key.is_key_frame);
    assert!(!key.temporal_supported);
    let delta = read(&[0x10, 0x01]).unwrap();
    assert!(!delta.is_key_frame);
    // Not the start of a partition
    assert!(!read(&[0x00, 0x00]).unwrap().is_key_frame);
}

#[test]
fn vp8_with_all_extensions() {
    let vp8 = read(&[0x90, 0xF0, 0x81, 0x02, 0x2A, 0xC0, 0x00]).unwrap();
    assert!(vp8.temporal_supported);
    assert_eq!(vp8.picture_id, 0x102);
    assert_eq!(vp8.picture_id_idx, 2);
    assert!(vp8.mbit);
    assert_eq!(vp8.tlz_idx, 4);
    assert_eq!(vp8.tl0_picture_idx, 0x2A);
    assert_eq!(vp8.tid, 3);
    assert!(vp8.is_key_frame);
}

#[test]
fn vp8_with_a_short_picture_id() {
    let vp8 = read(&[0x80, 0x80, 0x7F, 0x00]).unwrap();
    assert_eq!(vp8.picture_id, 0x7F);
    assert!(!vp8.mbit);
    assert!(!vp8.is_key_frame);
}

#[test]
fn vp8_that_is_too_short() {
    assert_eq!(read(&[]).err(), Some(BufferError::ErrNilPacket));
    assert_eq!(read(&[0x10]).err(), Some(BufferError::ErrShortPacket));
    assert_eq!(read(&[0x80]).err(), Some(BufferError::ErrShortPacket));
    assert_eq!(read(&[0x80, 0x80]).err(), Some(BufferError::ErrShortPacket));
    assert_eq!(read(&[0x80, 0x80, 0x80]).err(), Some(BufferError::ErrShortPacket));
    assert_eq!(read(&[0x80, 0x40]).err(), Some(BufferError::ErrShortPacket));
    assert_eq!(read(&[0x80, 0x20]).err(), Some(BufferError::ErrShortPacket));
    assert_eq!(read(&[0x80, 0x00]).err(), Some(BufferError::ErrShortPacket));
}

#[test]
fn h264_key_frames() {
    assert!(!is_h264_keyframe(&[]));
    assert!(!is_h264_keyframe(&[0x00]));
    // A single unit
    assert!(is_h264_keyframe(&[0x65]));
    assert!(!is_h264_keyframe(&[0x61]));
    // Aggregated units
    assert!(is_h264_keyframe(&[24, 0, 1, 0x61, 0, 1, 0x67]));
    assert!(!is_h264_keyframe(&[24, 0, 1, 0x61]));
    assert!(!is_h264_keyframe(&[24, 0, 9, 0x67]));
    assert!(!is_h264_keyframe(&[24, 0]));
    assert!(is_h264_keyframe(&[25, 0, 0, 0, 1, 0x67]));
    assert!(is_h264_keyframe(&[26, 0, 0, 0, 4, 0, 0, 0, 0x67]));
    assert!(is_h264_keyframe(&[27, 0, 0, 0, 5, 0, 0, 0, 0, 0x67]));
    assert!(!is_h264_keyframe(&[27, 0, 0, 0, 4, 0, 0, 0, 0x67]));
    // Fragments
    assert!(is_h264_keyframe(&[28, 0x87]));
    assert!(!is_h264_keyframe(&[28, 0x07]));
    assert!(!is_h264_keyframe(&[29, 0x85]));
    assert!(!is_h264_keyframe(&[28]));
    assert!(!is_h264_keyframe(&[30, 0x87]));
}

#[test]
fn later_timestamps() {
    assert!(is_later_timestamp(2, 1));
    assert!(!is_later_timestamp(1, 2));
    assert!(!is_later_timestamp(1, 1));
    assert!(is_timestamp_wrap_around(1, 0xFFFF_FFFF));
    assert!(is_timestamp_wrap_around(0x3FFF_FFFF, 0xC000_0000));
    assert!(!is_timestamp_wrap_around(0x4000_0000, 0xC000_0000));
    assert!(!is_timestamp_wrap_around(0x3FFF_FFFF, 0xBFFF_FFFF));
    assert!(!is_timestamp_wrap_around(0xFFFF_FFFF, 1));
    assert!(!is_timestamp_wrap_around(0, 0x0C00_0000));
    assert!(is_later_timestamp(0x0C00_0000, 1));
    assert!(is_later_timestamp(0, 0xFFFF_FFFF));
    assert!(!is_later_timestamp(0xFFFF_FFFF, 0));
    assert!(is_later_timestamp(1, 0xFFFF_FFFF));
    assert!(!is_later_timestamp(0xFFFF_FFFF, 1));
}
