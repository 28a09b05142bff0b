use screen_share::capture::VideoCodec;
use screen_share::nal_extractor::{NalExtractor, NalFrameType};

#[test]
fn test_h264_atomic_keyframe_extraction() {
    let mut extractor = NalExtractor::new(VideoCodec::H264);

    // Frame 1: keyframe [AUD (9)] [SPS (7)] [PPS (8)] [IDR slice (5)]
    // Frame 2: P-frame [AUD (9)] [P slice (1)]
    let mut stream = Vec::new();
    stream.extend_from_slice(&[0, 0, 0, 1, 0x09, 0xF0]);
    stream.extend_from_slice(&[0, 0, 0, 1, 0x67, 0x42, 0x00, 0x28]);
    stream.extend_from_slice(&[0, 0, 0, 1, 0x68, 0xCE, 0x38, 0x80]);
    stream.extend_from_slice(&[0, 0, 0, 1, 0x65, 0x88, 0x84, 0x00]);
    stream.extend_from_slice(&[0, 0, 0, 1, 0x09, 0xF0]);
    stream.extend_from_slice(&[0, 0, 0, 1, 0x41, 0x9A]);
    // Frame 3 AUD, which completes frame 2
    stream.extend_from_slice(&[0, 0, 0, 1, 0x09, 0xF0]);

    let frames = extractor.push_bytes(&stream);
    assert_eq!(frames.len(), 2, "Deveria emitir exatamente 2 quadros completos");

    assert!(frames[0].starts_with(&[0, 0, 0, 1, 0x09]));
    assert!(frames[0].contains(&0x67), "Quadro 1 deve conter SPS");
    assert!(frames[0].contains(&0x68), "Quadro 1 deve conter PPS");
    assert!(frames[0].contains(&0x65), "Quadro 1 deve conter IDR Slice");

    assert!(frames[1].starts_with(&[0, 0, 0, 1, 0x09]));
    assert!(frames[1].contains(&0x41), "Quadro 2 deve conter P Slice");
}

#[test]
fn test_hevc_atomic_keyframe_extraction() {
    let mut extractor = NalExtractor::new(VideoCodec::HEVC);

    let mut stream = Vec::new();
    stream.extend_from_slice(&[0, 0, 0, 1, 0x46, 0x01]);
    stream.extend_from_slice(&[0, 0, 0, 1, 0x40, 0x01, 0x0C]);
    stream.extend_from_slice(&[0, 0, 0, 1, 0x42, 0x01, 0x01]);
    stream.extend_from_slice(&[0, 0, 0, 1, 0x44, 0x01, 0xC0]);
    stream.extend_from_slice(&[0, 0, 0, 1, 0x26, 0x01, 0xAF]);
    stream.extend_from_slice(&[0, 0, 0, 1, 0x46, 0x01]);
    stream.extend_from_slice(&[0, 0, 0, 1, 0x02, 0x01, 0xD0]);
    stream.extend_from_slice(&[0, 0, 0, 1, 0x46, 0x01]);

    let frames = extractor.push_bytes(&stream);
    assert_eq!(frames.len(), 2, "Deveria emitir exatamente 2 quadros HEVC completos");

    assert!(frames[0].contains(&0x40), "Quadro 1 deve conter VPS");
    assert!(frames[0].contains(&0x42), "Quadro 1 deve conter SPS");
    assert!(frames[0].contains(&0x44), "Quadro 1 deve conter PPS");
    assert!(frames[0].contains(&0x26), "Quadro 1 deve conter IDR Slice");
}

#[test]
fn nal_units_and_buffer_tile_the_stream() {
    let mut extractor = NalExtractor::new(VideoCodec::H264);
    let mut stream = vec![0xAA, 0xBB];
    stream.extend_from_slice(&[0, 0, 1, 0x09, 0xF0]);
    stream.extend_from_slice(&[0, 0, 0, 1, 0x65, 0x11, 0x22]);
    stream.extend_from_slice(&[0, 0, 0, 1, 0x09, 0xF0]);
    stream.extend_from_slice(&[0, 0, 0, 1, 0x41, 0x33]);
    let mut out = Vec::new();
    for chunk in stream.chunks(3) {
        for f in extractor.push_bytes(chunk) {
            out.push(f);
        }
    }
    // One unit is complete; the second waits for the next unit's start.
    assert_eq!(out.len(), 1);
    assert_eq!(out[0], vec![0, 0, 1, 0x09, 0xF0, 0, 0, 0, 1, 0x65, 0x11, 0x22]);
    // The rest completes once another access unit delimiter arrives.
    let tail = extractor.push_bytes(&[0, 0, 0, 1, 0x09, 0xF0]);
    assert_eq!(tail, vec![vec![0, 0, 0, 1, 0x09, 0xF0, 0, 0, 0, 1, 0x41, 0x33]]);
}

#[test]
fn nal_nothing_complete_keeps_everything() {
    let mut extractor = NalExtractor::new(VideoCodec::HEVC);
    assert!(extractor.push_bytes(&[0, 0, 0, 1, 0x46, 0x01, 0x02]).is_empty());
    assert!(extractor.push_bytes(&[]).is_empty());
}

#[test]
fn nal_classification_by_codec() {
    let h264 = NalExtractor::new(VideoCodec::H264);
    assert_eq!(h264.classify_nal(0x09), NalFrameType::Aud);
    assert_eq!(h264.classify_nal(0x67), NalFrameType::SequenceStart);
    assert_eq!(h264.classify_nal(0x65), NalFrameType::VclSlice);
    let hevc = NalExtractor::new(VideoCodec::HEVC);
    assert_eq!(hevc.classify_nal(0x46), NalFrameType::Aud);
    assert_eq!(hevc.classify_nal(0x40), NalFrameType::SequenceStart);
    assert_eq!(hevc.classify_nal(0x26), NalFrameType::VclSlice);
}

#[test]
fn nal_start_codes_of_buffer() {
    let mut extractor = NalExtractor::new(VideoCodec::H264);
    let _ = extractor.push_bytes(&[0xFF, 0, 0, 1, 0x09, 0, 0, 0, 1, 0x67]);
    assert_eq!(extractor.find_start_codes(), vec![(1, 3), (5, 4)]);
}

fn sample_h264_stream() -> Vec<u8> {
    let mut stream = vec![0xAB, 0xCD];
    for _ in 0..3 {
        stream.extend_from_slice(&[0, 0, 0, 1, 0x09, 0xF0]);
        stream.extend_from_slice(&[0, 0, 1, 0x67, 0x42, 0x00]);
        stream.extend_from_slice(&[0, 0, 0, 1, 0x65, 0x88, 0x84]);
        stream.extend_from_slice(&[0, 0, 1, 0x41, 0x9A]);
    }
    stream.extend_from_slice(&[0, 0, 0, 1, 0x09, 0xF0]);
    stream
}

#[test]
fn nal_chunking_does_not_change_the_units() {
    let stream = sample_h264_stream();
    let mut whole = NalExtractor::new(VideoCodec::H264);
    let expected = whole.push_bytes(&stream);
    assert_eq!(expected.len(), 6);
    for size in 1..stream.len() {
        let mut e = NalExtractor::new(VideoCodec::H264);
        let mut got = Vec::new();
        for chunk in stream.chunks(size) {
            got.extend(e.push_bytes(chunk));
        }
        assert_eq!(got, expected, "chunks of {}", size);
        assert_eq!(e.buffered_len(), whole.buffered_len());
    }
}

#[test]
fn nal_units_are_contiguous_from_first_start_code() {
    let stream = sample_h264_stream();
    let mut e = NalExtractor::new(VideoCodec::H264);
    let mut joined = Vec::new();
    for chunk in stream.chunks(5) {
        for unit in e.push_bytes(chunk) {
            assert!(unit.starts_with(&[0, 0, 1]) || unit.starts_with(&[0, 0, 0, 1]));
            joined.extend(unit);
        }
    }
    assert_eq!(joined.len() + e.buffered_len(), stream.len() - 2);
    assert_eq!(&joined[..], &stream[2..2 + joined.len()]);
}

#[test]
fn nal_av1_never_yields_a_unit() {
    let stream = sample_h264_stream();
    let mut e = NalExtractor::new(VideoCodec::AV1);
    for chunk in stream.chunks(7) {
        assert!(e.push_bytes(chunk).is_empty());
    }
    assert_eq!(e.buffered_len(), stream.len());
}
