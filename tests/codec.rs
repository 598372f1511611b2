use pcm_wav::capture::{on_read, CaptureConfig};
use pcm_wav::frame::{append_buffer, i16_from_be, i16_to_be, Sample};
use pcm_wav::wav::{can_encode, encode_header, encode_wav, HEADER_LEN};

fn le32_at(b: &[u8], at: usize) -> u32 {
    u32::from_le_bytes([b[at], b[at + 1], b[at + 2], b[at + 3]])
}

fn le16_at(b: &[u8], at: usize) -> u16 {
    u16::from_le_bytes([b[at], b[at + 1]])
}

#[test]
fn mono_two_frames_concrete() {
    let mut data = Vec::new();
    append_buffer(&mut data, &[0x00, 0x01, 0xFF, 0xFE], false);
    assert_eq!(data, vec![Sample::Mono(1), Sample::Mono(-2)]);
    let file = encode_wav(&data, 8000, 1);
    assert_eq!(file.len(), 48);
    assert_eq!(&file[0..4], b"RIFF");
    assert_eq!(le32_at(&file, 4), 40);
    assert_eq!(&file[8..16], b"WAVEfmt ");
    assert_eq!(le32_at(&file, 16), 16);
    assert_eq!(le16_at(&file, 20), 1);
    assert_eq!(le16_at(&file, 22), 1);
    assert_eq!(le32_at(&file, 24), 8000);
    assert_eq!(le32_at(&file, 28), 16000);
    assert_eq!(le16_at(&file, 32), 2);
    assert_eq!(le16_at(&file, 34), 16);
    assert_eq!(&file[36..40], b"data");
    assert_eq!(le32_at(&file, 40), 4);
    assert_eq!(&file[44..], &[0x00, 0x01, 0xFF, 0xFE]);
}

#[test]
fn stereo_one_frame_concrete() {
    let mut data = Vec::new();
    append_buffer(&mut data, &[0x00, 0x01, 0x00, 0x02], true);
    assert_eq!(data, vec![Sample::Stereo(1, 2)]);
    let file = encode_wav(&data, 44100, 2);
    assert_eq!(file.len(), 48);
    assert_eq!(&file[44..], &[0x00, 0x02, 0x00, 0x01]);
    assert_eq!(le32_at(&file, 4), 40);
    assert_eq!(le32_at(&file, 28), 44100 * 4);
    assert_eq!(le16_at(&file, 32), 4);
    assert_eq!(le32_at(&file, 40), 4);
}

#[test]
fn mono_round_trip_bytes() {
    let buffer: Vec<u8> = vec![0x80, 0x00, 0x7F, 0xFF, 0x12, 0x34, 0xAB, 0xCD];
    let mut data = Vec::new();
    append_buffer(&mut data, &buffer, false);
    assert_eq!(
        data,
        vec![Sample::Mono(i16::MIN), Sample::Mono(i16::MAX), Sample::Mono(0x1234), Sample::Mono(-0x5433)]
    );
    let file = encode_wav(&data, 8000, 1);
    assert_eq!(&file[HEADER_LEN..], &buffer[..]);
}

#[test]
fn stereo_round_trip_swaps_channels() {
    let buffer: Vec<u8> = vec![0x01, 0x02, 0x03, 0x04, 0xF0, 0xF1, 0xF2, 0xF3];
    let mut data = Vec::new();
    append_buffer(&mut data, &buffer, true);
    let file = encode_wav(&data, 8000, 2);
    assert_eq!(&file[HEADER_LEN..], &[0x03, 0x04, 0x01, 0x02, 0xF2, 0xF3, 0xF0, 0xF1]);
}

#[test]
fn truncated_tail_is_dropped() {
    let mut mono = Vec::new();
    append_buffer(&mut mono, &[0x00, 0x05, 0x00], false);
    assert_eq!(mono, vec![Sample::Mono(5)]);
    let mut stereo = Vec::new();
    append_buffer(&mut stereo, &[0x00, 0x01, 0x00, 0x02, 0x00, 0x03, 0x00], true);
    assert_eq!(stereo, vec![Sample::Stereo(1, 2)]);
    let mut short = Vec::new();
    append_buffer(&mut short, &[0x00, 0x01, 0x00], true);
    assert!(short.is_empty());
}

#[test]
fn empty_buffer_appends_nothing() {
    let mut data = vec![Sample::Mono(7)];
    append_buffer(&mut data, &[], false);
    assert_eq!(data, vec![Sample::Mono(7)]);
}

#[test]
fn append_keeps_existing_frames() {
    let mut data = vec![Sample::Mono(9)];
    append_buffer(&mut data, &[0xFF, 0xFF], false);
    assert_eq!(data, vec![Sample::Mono(9), Sample::Mono(-1)]);
}

#[test]
fn sample_byte_helpers() {
    assert_eq!(i16_from_be(0xFF, 0xFE), -2);
    assert_eq!(i16_from_be(0x80, 0x00), i16::MIN);
    assert_eq!(i16_to_be(-2), (0xFF, 0xFE));
    assert_eq!(i16_to_be(0x1234), (0x12, 0x34));
    assert_eq!(i16_to_be(i16::MIN), (0x80, 0x00));
}

#[test]
fn header_formulas() {
    let h = encode_header(44100, 2, 10);
    assert_eq!(h.len(), HEADER_LEN);
    assert_eq!(le32_at(&h, 4), 36 + 10 * 2 * 2);
    assert_eq!(le16_at(&h, 22), 2);
    assert_eq!(le32_at(&h, 24), 44100);
    assert_eq!(le32_at(&h, 28), 44100 * 2 * 16 / 8);
    assert_eq!(le16_at(&h, 32), 2 * 16 / 8);
    assert_eq!(le32_at(&h, 40), 40);
}

#[test]
fn empty_recording_is_header_only() {
    let file = encode_wav(&Vec::new(), 8000, 1);
    assert_eq!(file.len(), HEADER_LEN);
    assert_eq!(le32_at(&file, 4), 36);
    assert_eq!(le32_at(&file, 40), 0);
}

#[test]
fn encoding_twice_is_identical() {
    let data = vec![Sample::Stereo(1, -1), Sample::Stereo(300, -300)];
    assert_eq!(encode_wav(&data, 22050, 2), encode_wav(&data, 22050, 2));
}

#[test]
fn can_encode_rejects_bad_arguments() {
    let mono = vec![Sample::Mono(1)];
    let stereo = vec![Sample::Stereo(1, 2)];
    assert!(can_encode(&mono, 8000, 1));
    assert!(can_encode(&stereo, 8000, 2));
    assert!(!can_encode(&mono, 8000, 2));
    assert!(!can_encode(&stereo, 8000, 1));
    assert!(!can_encode(&mono, 8000, 3));
    assert!(!can_encode(&mono, u32::MAX, 1));
    assert!(can_encode(&mono, u32::MAX / 2, 1));
    assert!(!can_encode(&stereo, u32::MAX / 2, 2));
}

#[test]
fn config_validation() {
    assert!(CaptureConfig::new(0, 8000, 1).is_none());
    assert!(CaptureConfig::new(3, 8000, 1).is_none());
    assert!(CaptureConfig::new(1, 0, 1).is_none());
    let c = CaptureConfig::new(2, 44100, 5).unwrap();
    assert!(c.is_stereo());
    assert_eq!(c.target_frames(), 220500);
    assert!(!c.is_complete(220499));
    assert!(c.is_complete(220500));
    let big = CaptureConfig::new(1, u32::MAX, u32::MAX).unwrap();
    assert!(!big.is_stereo());
    assert_eq!(big.target_frames(), u32::MAX as u64 * u32::MAX as u64);
}

#[test]
fn failed_read_appends_nothing() {
    let c = CaptureConfig::new(2, 8000, 1).unwrap();
    let mut data = Vec::new();
    on_read(&mut data, None, &c);
    assert!(data.is_empty());
    on_read(&mut data, Some(&[0x00, 0x01, 0x00, 0x02]), &c);
    assert_eq!(data, vec![Sample::Stereo(1, 2)]);
}
