use screen_share::fec::{FecDecoder, FecEncoder, FecError};
use screen_share::rtp::{VideoRtpHeader, FLAG_EOF, FLAG_PARITY, FLAG_SOF, RTP_PACKET_MAX_SIZE};

#[test]
fn test_fec_encode_decode_no_loss() {
    let encoder = FecEncoder::new(20);
    let mut decoder = FecDecoder::new(8);

    let test_payload = b"Hello, Screen Share Remote Video Stream! Ultra low latency test.";
    let packets = encoder.encode_frame(1, 0, test_payload).expect("Codificação falhou");
    assert!(!packets.is_empty());

    let mut decoded = None;
    for pkt in packets {
        if let Some(frame) = decoder.process_packet(&pkt).expect("Processamento falhou") {
            decoded = Some(frame);
        }
    }

    let frame = decoded.expect("Frame deveria ter sido reconstruído");
    assert_eq!(frame.frame_index, 1);
    assert_eq!(frame.codec, 0);
    assert_eq!(frame.data, test_payload);
}

#[test]
fn test_fec_encode_decode_with_packet_loss() {
    let encoder = FecEncoder::new(25);
    let mut decoder = FecDecoder::new(8);

    let test_payload = vec![42u8; 4000];
    let packets = encoder.encode_frame(2, 1, &test_payload).expect("Codificação falhou");
    assert!(packets.len() > 3);

    // The first data packet is lost on the way.
    let mut simulated_packets = packets;
    simulated_packets.remove(0);

    let mut decoded = None;
    for pkt in simulated_packets {
        if let Some(frame) = decoder.process_packet(&pkt).expect("Processamento falhou") {
            decoded = Some(frame);
        }
    }

    let frame = decoded.expect("Frame deveria ter sido reconstruído via paridade FEC");
    assert_eq!(frame.frame_index, 2);
    assert_eq!(frame.codec, 1);
    assert_eq!(frame.data, test_payload);
}

#[test]
fn fec_packet_layout_of_a_small_frame() {
    let encoder = FecEncoder::new(20);
    let frame: Vec<u8> = (0..100u8).collect();
    let packets = encoder.encode_frame(7, 1, &frame).unwrap();
    // One data shard and ceil(1 * 20 / 100) = 1 parity shard.
    assert_eq!(packets.len(), 2);
    for p in &packets {
        assert_eq!(p.len(), RTP_PACKET_MAX_SIZE);
    }
    let h0 = VideoRtpHeader::deserialize(&packets[0]).unwrap();
    assert_eq!(h0.frame_index, 7);
    assert_eq!(h0.packet_index, 0);
    assert_eq!(h0.total_data_shards, 1);
    assert_eq!(h0.total_parity_shards, 1);
    assert_eq!(h0.payload_size, 100);
    assert_eq!(h0.flags, FLAG_SOF | FLAG_EOF);
    assert_eq!(h0.codec, 1);
    assert_eq!(&packets[0][16..116], &frame[..]);
    assert!(packets[0][116..].iter().all(|&b| b == 0));
    let h1 = VideoRtpHeader::deserialize(&packets[1]).unwrap();
    assert_eq!(h1.packet_index, 1);
    assert_eq!(h1.payload_size, 1380);
    assert_eq!(h1.flags, FLAG_PARITY);
}

#[test]
fn fec_shard_counts_follow_the_percentage() {
    // 10 data shards at 25 %: ceil(2.5) = 3 parity shards.
    let encoder = FecEncoder::new(25);
    let frame = vec![1u8; 1380 * 10];
    let packets = encoder.encode_frame(0, 0, &frame).unwrap();
    assert_eq!(packets.len(), 13);
    // The percentage is clamped to 5..=50.
    let low = FecEncoder::new(0).encode_frame(0, 0, &frame).unwrap();
    assert_eq!(low.len(), 11);
    let high = FecEncoder::new(90).encode_frame(0, 0, &frame).unwrap();
    assert_eq!(high.len(), 15);
}

#[test]
fn fec_empty_frame_has_no_packet() {
    let encoder = FecEncoder::new(20);
    assert!(encoder.encode_frame(3, 0, &[]).unwrap().is_empty());
}

#[test]
fn fec_frame_needing_too_many_shards_fails() {
    // 220 data shards at 20 % need 44 parity shards: 264 > 256.
    let encoder = FecEncoder::new(20);
    let frame = vec![0u8; 1380 * 220];
    assert_eq!(encoder.encode_frame(0, 0, &frame).err(), Some(FecError::CodecInit));
}

#[test]
fn fec_parity_rebuilds_a_lost_data_shard() {
    // The rebuilt shard is what the erasure code computes: a test that would
    // fail if reconstruction handed the present shards back unchanged.
    let encoder = FecEncoder::new(50);
    let frame: Vec<u8> = (0..2760u32).map(|i| (i % 251) as u8).collect();
    let packets = encoder.encode_frame(9, 0, &frame).unwrap();
    assert_eq!(packets.len(), 3);
    let mut decoder = FecDecoder::new(4);
    assert!(decoder.process_packet(&packets[1]).unwrap().is_none());
    let frame_out = decoder.process_packet(&packets[2]).unwrap().unwrap();
    assert_eq!(frame_out.data, frame);
}

#[test]
fn fec_stale_and_malformed_packets_are_ignored() {
    let encoder = FecEncoder::new(20);
    let packets = encoder.encode_frame(5, 0, &[9u8; 10]).unwrap();
    let mut decoder = FecDecoder::new(4);
    assert!(decoder.accepts(&packets[0]));
    assert!(decoder.process_packet(&packets[0]).unwrap().is_some());
    // The frame was delivered: its parity packet comes too late.
    assert!(decoder.process_packet(&packets[1]).unwrap().is_none());
    // Too short, or without the magic.
    assert!(decoder.process_packet(&[1, 2, 3]).unwrap().is_none());
    assert!(decoder.process_packet(&[0u8; 40]).unwrap().is_none());
}

#[test]
fn fec_pending_frames_stay_bounded() {
    // Frames that never complete: each has two data shards and only its
    // first packet arrives.
    let encoder = FecEncoder::new(20);
    let mut decoder = FecDecoder::new(4);
    for fi in 0..40u32 {
        let packets = encoder.encode_frame(fi, 0, &vec![7u8; 2000]).unwrap();
        assert!(decoder.process_packet(&packets[0]).unwrap().is_none());
        assert!(decoder.pending_count() <= 8);
    }
    assert_eq!(decoder.pending_count(), 8);
}

#[test]
fn fec_reordered_packets_with_loss() {
    let encoder = FecEncoder::new(25);
    let frame: Vec<u8> = (0..4000u32).map(|i| (i * 7 % 256) as u8).collect();
    let packets = encoder.encode_frame(11, 1, &frame).unwrap();
    assert_eq!(packets.len(), 4);
    let mut decoder = FecDecoder::new(4);
    // Parity first, then the last data packet, then the second; the first
    // data packet is lost.
    assert!(decoder.process_packet(&packets[3]).unwrap().is_none());
    assert!(decoder.process_packet(&packets[2]).unwrap().is_none());
    let out = decoder.process_packet(&packets[1]).unwrap().unwrap();
    assert_eq!(out.frame_index, 11);
    assert_eq!(out.codec, 1);
    assert_eq!(out.data, frame);
}

#[test]
fn fec_stale_window_is_500_frames() {
    let encoder = FecEncoder::new(20);
    let single = |fi: u32| encoder.encode_frame(fi, 0, &[1u8; 10]).unwrap();
    for (fi, stale) in [(501u32, true), (1000, true), (500, false), (1001, false)] {
        let mut decoder = FecDecoder::new(4);
        assert!(decoder.process_packet(&single(1000)[0]).unwrap().is_some());
        let out = decoder.process_packet(&single(fi)[0]).unwrap();
        assert_eq!(out.is_none(), stale, "frame {}", fi);
        if let Some(f) = out {
            assert_eq!(f.frame_index, fi);
        }
    }
}

#[test]
fn fec_packets_after_delivery_give_nothing() {
    let encoder = FecEncoder::new(50);
    let frame = vec![3u8; 3000];
    let packets = encoder.encode_frame(8, 1, &frame).unwrap();
    assert!(packets.len() > 3);
    let mut decoder = FecDecoder::new(4);
    let mut outputs = Vec::new();
    for p in &packets {
        outputs.push(decoder.process_packet(p).unwrap());
    }
    let delivered: Vec<usize> = (0..outputs.len()).filter(|&i| outputs[i].is_some()).collect();
    assert_eq!(delivered, vec![2]);
    assert_eq!(outputs[2].as_ref().unwrap().data, frame);
}
