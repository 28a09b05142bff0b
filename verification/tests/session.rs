use screen_share::capture::{VideoCodec, VideoResolution};
use screen_share::fec::{FecDecoder, FecEncoder};
use screen_share::rtp::VideoRtpHeader;
use screen_share::session::{
    handshake_bytes, pacing_yield_after, parse_session_request, SessionRequest, StreamSession,
    DEFAULT_CLIENT_UDP_PORT, SERVER_FEC_PERCENTAGE,
};

#[test]
fn handshake_with_port_codec_and_resolution() {
    let r = parse_session_request(&[0xC3, 0x50, 0, 2], VideoCodec::HEVC, VideoResolution::FHD);
    assert_eq!(
        r,
        SessionRequest { udp_port: 50000, codec: VideoCodec::H264, resolution: VideoResolution::UHD }
    );
}

#[test]
fn handshake_with_port_only_keeps_defaults() {
    let r = parse_session_request(&[0x1F, 0x90], VideoCodec::AV1, VideoResolution::QHD);
    assert_eq!(
        r,
        SessionRequest { udp_port: 8080, codec: VideoCodec::AV1, resolution: VideoResolution::QHD }
    );
}

#[test]
fn handshake_unknown_codes_keep_defaults() {
    let r = parse_session_request(&[0, 1, 7, 9], VideoCodec::HEVC, VideoResolution::FHD);
    assert_eq!(
        r,
        SessionRequest { udp_port: 1, codec: VideoCodec::HEVC, resolution: VideoResolution::FHD }
    );
}

#[test]
fn handshake_too_short_uses_default_port() {
    for received in [&[][..], &[0x12][..]] {
        let r = parse_session_request(received, VideoCodec::HEVC, VideoResolution::QHD);
        assert_eq!(r.udp_port, DEFAULT_CLIENT_UDP_PORT);
        assert_eq!(r.codec, VideoCodec::HEVC);
        assert_eq!(r.resolution, VideoResolution::QHD);
    }
}

#[test]
fn client_handshake_roundtrips_through_server() {
    let bytes = handshake_bytes(50000, 1);
    assert_eq!(bytes, vec![0xC3, 0x50, 1]);
    let r = parse_session_request(&bytes, VideoCodec::H264, VideoResolution::QHD);
    assert_eq!(
        r,
        SessionRequest { udp_port: 50000, codec: VideoCodec::HEVC, resolution: VideoResolution::QHD }
    );
    let r = parse_session_request(&handshake_bytes(4321, 0), VideoCodec::HEVC, VideoResolution::FHD);
    assert_eq!(r.udp_port, 4321);
    assert_eq!(r.codec, VideoCodec::H264);
}

#[test]
fn stream_session_numbers_and_encodes_units() {
    let encoder = FecEncoder::new(SERVER_FEC_PERCENTAGE);
    let mut session = StreamSession::new(VideoCodec::H264);
    let mut stream = Vec::new();
    stream.extend_from_slice(&[0, 0, 0, 1, 0x09, 0xF0, 0, 0, 0, 1, 0x65, 0x88]);
    stream.extend_from_slice(&[0, 0, 0, 1, 0x09, 0xF0, 0, 0, 0, 1, 0x41, 0x9A]);
    stream.extend_from_slice(&[0, 0, 0, 1, 0x09, 0xF0]);
    let frames = session.ingest(&encoder, &stream);
    assert_eq!(frames.len(), 2);
    let mut decoder = FecDecoder::new(16);
    for (n, packets) in frames.iter().enumerate() {
        assert_eq!(packets.len(), 2);
        let h = VideoRtpHeader::deserialize(&packets[0]).unwrap();
        assert_eq!(h.frame_index, n as u32 + 1);
        assert_eq!(h.codec, 0);
        let out = decoder.process_packet(&packets[0]).unwrap().unwrap();
        assert_eq!(out.data, stream[n * 12..n * 12 + 12].to_vec());
    }
    // The next chunk goes on numbering from 3.
    let more = session.ingest(&encoder, &[0, 0, 0, 1, 0x41, 0x01, 0, 0, 0, 1, 0x09, 0xF0]);
    assert_eq!(more.len(), 1);
    assert_eq!(VideoRtpHeader::deserialize(&more[0][0]).unwrap().frame_index, 3);
}

#[test]
fn pacing_yields_after_full_bursts_only() {
    assert!(!pacing_yield_after(0, 100));
    assert!(pacing_yield_after(31, 100));
    assert!(!pacing_yield_after(32, 100));
    assert!(pacing_yield_after(63, 100));
    assert!(!pacing_yield_after(31, 32));
}
