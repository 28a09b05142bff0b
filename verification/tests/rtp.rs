use screen_share::rtp::{VideoRtpHeader, RTP_HEADER_SIZE, RTP_MAGIC};

fn sample() -> VideoRtpHeader {
    VideoRtpHeader {
        frame_index: 0x01020304,
        packet_index: 0x0506,
        total_data_shards: 0x0708,
        total_parity_shards: 0x090A,
        payload_size: 0x0B0C,
        flags: 0x0D,
        codec: 0x0E,
    }
}

#[test]
fn rtp_header_is_big_endian() {
    let mut buf = [0xFFu8; 20];
    sample().serialize(&mut buf);
    assert_eq!(
        &buf[..RTP_HEADER_SIZE],
        &[0x52, 0x53, 1, 2, 3, 4, 5, 6, 7, 8, 9, 10, 11, 12, 13, 14]
    );
    // Bytes after the header stay as they were.
    assert_eq!(&buf[16..], &[0xFF; 4]);
    assert_eq!(RTP_MAGIC, 0x5253);
}

#[test]
fn rtp_header_roundtrip() {
    let mut buf = [0u8; 16];
    sample().serialize(&mut buf);
    assert_eq!(VideoRtpHeader::deserialize(&buf), Some(sample()));
}

#[test]
fn rtp_short_or_foreign_buffers_are_rejected() {
    assert_eq!(VideoRtpHeader::deserialize(&[0x52, 0x53, 0, 0]), None);
    let mut buf = [0u8; 16];
    sample().serialize(&mut buf);
    buf[0] = 0x00;
    assert_eq!(VideoRtpHeader::deserialize(&buf), None);
}
