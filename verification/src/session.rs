//! The video session: the handshake by which a client asks for a stream,
//! and the server's per-session pipeline from encoder output to packets.

use crate::capture::{codec_id, codec_number, resolution_dimensions, VideoCodec, VideoResolution};
use crate::erasure::shard_views;
use crate::fec::{encodable, encoded_packets, FecEncoder};
use crate::nal_extractor::{
    concat_units, extract_units, law_units_tile_stream, start_codes, NalExtractor,
};
use crate::rtp::RTP_PAYLOAD_MAX_SIZE;
use vstd::prelude::*;

verus! {

/// TCP port of the session handshake and UDP port the video leaves from.
pub const VIDEO_PORT: u16 = 5000;

/// TCP port of the control channel.
pub const CONTROL_PORT: u16 = 5001;

/// UDP port the stream goes to when the client names none.
pub const DEFAULT_CLIENT_UDP_PORT: u16 = 50000;

/// Parity the server adds to each frame, in percent.
pub const SERVER_FEC_PERCENTAGE: usize = 20;

/// Frames a client's decoder keeps in flight.
pub const CLIENT_ACTIVE_FRAMES: usize = 16;

/// Packets sent in one burst before the sender yields.
pub const PACING_BATCH: usize = 32;

/// Kernel send and receive buffer of the video sockets, in bytes.
pub const VIDEO_SOCKET_BUFFER_BYTES: usize = 4_194_304;

/// IP type-of-service byte of video packets: DSCP 40 (CS5, video).
pub const VIDEO_TOS: u32 = 160;

/// What a client asked for in its handshake.
#[derive(Debug, Clone, Copy, PartialEq, Eq, Structural)]
pub struct SessionRequest {
    /// UDP port on the client's address that receives the stream.
    pub udp_port: u16,
    pub codec: VideoCodec,
    pub resolution: VideoResolution,
}

/// The codec named by handshake byte `b` (0 = H.264, 1 = HEVC), or the
/// default for any other value.
pub open spec fn requested_codec(b: u8, default: VideoCodec) -> VideoCodec {
    if b == 0 {
        VideoCodec::H264
    } else if b == 1 {
        VideoCodec::HEVC
    } else {
        default
    }
}

/// The resolution named by handshake byte `b` (0 = 1080p, 1 = 1440p,
/// 2 = 2160p), or the default for any other value.
pub open spec fn requested_resolution(b: u8, default: VideoResolution) -> VideoResolution {
    if b == 0 {
        VideoResolution::FHD
    } else if b == 1 {
        VideoResolution::QHD
    } else if b == 2 {
        VideoResolution::UHD
    } else {
        default
    }
}

/// The request carried by the handshake bytes `received`: a big-endian UDP
/// port in the first two, then optionally a codec byte and a resolution
/// byte. Fewer than two bytes ask for port 50000 and the defaults.
pub open spec fn session_request(
    received: Seq<u8>,
    default_codec: VideoCodec,
    default_resolution: VideoResolution,
) -> SessionRequest {
    if received.len() >= 2 {
        SessionRequest {
            udp_port: (received[0] * 256 + received[1]) as u16,
            codec: if received.len() >= 3 {
                requested_codec(received[2], default_codec)
            } else {
                default_codec
            },
            resolution: if received.len() >= 4 {
                requested_resolution(received[3], default_resolution)
            } else {
                default_resolution
            },
        }
    } else {
        SessionRequest {
            udp_port: DEFAULT_CLIENT_UDP_PORT,
            codec: default_codec,
            resolution: default_resolution,
        }
    }
}

/// The handshake a client sends: its UDP port, big-endian, then its codec
/// number.
pub open spec fn handshake(udp_port: u16, codec: u8) -> Seq<u8> {
    seq![(udp_port / 256) as u8, (udp_port % 256) as u8, codec]
}

/// Reads the handshake bytes that a client sent (what one read of at most
/// four bytes gave; empty when the read failed).
pub fn parse_session_request(
    received: &[u8],
    default_codec: VideoCodec,
    default_resolution: VideoResolution,
) -> (r: SessionRequest)
    ensures
        r == session_request(received@, default_codec, default_resolution),
{
    let n = received.len();
    if n < 2 {
        return SessionRequest {
            udp_port: DEFAULT_CLIENT_UDP_PORT,
            codec: default_codec,
            resolution: default_resolution,
        };
    }
    let udp_port: u16 = (received[0] as u16) * 256 + (received[1] as u16);
    let mut codec = default_codec;
    if n >= 3 {
        if received[2] == 0 {
            codec = VideoCodec::H264;
        } else if received[2] == 1 {
            codec = VideoCodec::HEVC;
        }
    }
    let mut resolution = default_resolution;
    if n >= 4 {
        if received[3] == 0 {
            resolution = VideoResolution::FHD;
        } else if received[3] == 1 {
            resolution = VideoResolution::QHD;
        } else if received[3] == 2 {
            resolution = VideoResolution::UHD;
        }
    }
    SessionRequest { udp_port, codec, resolution }
}

/// The three handshake bytes a client sends for `udp_port` and `codec`.
pub fn handshake_bytes(udp_port: u16, codec: u8) -> (bytes: Vec<u8>)
    ensures
        bytes@ == handshake(udp_port, codec),
{
    let hi = (udp_port >> 8) as u8;
    let lo = (udp_port & 0xFF) as u8;
    assert(hi == udp_port / 256 && lo == udp_port % 256) by (bit_vector)
        requires
            hi == (udp_port >> 8) as u8,
            lo == (udp_port & 0xFF) as u8,
    ;
    let bytes = vec![hi, lo, codec];
    assert(bytes@ =~= handshake(udp_port, codec));
    bytes
}

/// Law: the server reads back from a client's handshake the port the client
/// named and the codec it named (0 = H.264, 1 = HEVC; another number leaves
/// the server's default), at the server's default resolution.
pub proof fn law_handshake_roundtrip(
    udp_port: u16,
    codec: u8,
    default_codec: VideoCodec,
    default_resolution: VideoResolution,
)
    ensures
        session_request(handshake(udp_port, codec), default_codec, default_resolution)
            == (SessionRequest {
            udp_port,
            codec: requested_codec(codec, default_codec),
            resolution: default_resolution,
        }),
{
    let h = handshake(udp_port, codec);
    assert(h.len() == 3);
    assert(h[0] * 256 + h[1] == udp_port);
}

/// Law: a codec that the server can stream to a client named in the
/// handshake by its packet codec number is the codec the server then uses.
pub proof fn law_handshake_codec_number(udp_port: u16, c: VideoCodec, default_codec: VideoCodec)
    requires
        c != VideoCodec::AV1,
    ensures
        session_request(
            handshake(udp_port, codec_number(c)),
            default_codec,
            VideoResolution::FHD,
        ).codec == c,
{
    law_handshake_roundtrip(udp_port, codec_number(c), default_codec, VideoResolution::FHD);
}

/// Law: a four-byte handshake `[port / 256, port % 256, codec, resolution]`
/// asks, whatever the server's defaults, for that UDP port; for H.264 when
/// the codec byte is 0 and HEVC when it is 1; and for 1080p (1920x1080)
/// when the resolution byte is 0, 1440p (2560x1440) when it is 1 and 2160p
/// (3840x2160) when it is 2. Other bytes leave the server's defaults.
pub proof fn law_handshake_resolution_byte(
    udp_port: u16,
    codec: u8,
    resolution: u8,
    default_codec: VideoCodec,
    default_resolution: VideoResolution,
)
    ensures
        ({
            let r = session_request(
                seq![(udp_port / 256) as u8, (udp_port % 256) as u8, codec, resolution],
                default_codec,
                default_resolution,
            );
            &&& r.udp_port == udp_port
            &&& codec == 0 ==> r.codec == VideoCodec::H264
            &&& codec == 1 ==> r.codec == VideoCodec::HEVC
            &&& codec > 1 ==> r.codec == default_codec
            &&& resolution == 0 ==> r.resolution == VideoResolution::FHD
                && resolution_dimensions(r.resolution) == (1920u32, 1080u32)
            &&& resolution == 1 ==> r.resolution == VideoResolution::QHD
                && resolution_dimensions(r.resolution) == (2560u32, 1440u32)
            &&& resolution == 2 ==> r.resolution == VideoResolution::UHD
                && resolution_dimensions(r.resolution) == (3840u32, 2160u32)
            &&& resolution > 2 ==> r.resolution == default_resolution
        }),
{
    let h = seq![(udp_port / 256) as u8, (udp_port % 256) as u8, codec, resolution];
    assert(h.len() == 4);
    assert(h[0] * 256 + h[1] == udp_port);
}

/// Law: a handshake of fewer than two bytes (a failed or empty read) asks
/// for UDP port 50000 at the server's default codec and resolution.
pub proof fn law_short_handshake_uses_defaults(
    received: Seq<u8>,
    default_codec: VideoCodec,
    default_resolution: VideoResolution,
)
    requires
        received.len() < 2,
    ensures
        session_request(received, default_codec, default_resolution) == (SessionRequest {
            udp_port: 50000,
            codec: default_codec,
            resolution: default_resolution,
        }),
{
}

/// The index of the `n`-th frame after `start`, counting modulo 2^32.
pub open spec fn frame_number(start: u32, n: nat) -> u32 {
    ((start + n) % 0x1_0000_0000) as u32
}

/// What the session sends for access unit `unit` as frame `index`: its
/// packets, or none when the unit cannot be encoded.
pub open spec fn unit_packets(index: u32, codec: u8, unit: Seq<u8>, pct: nat) -> Seq<Seq<u8>> {
    if encodable(unit.len(), pct) {
        encoded_packets(index, codec, unit, pct)
    } else {
        seq![]
    }
}

/// Law: frames are numbered one after the other: the first frame of a
/// session is frame 1, and each next frame has the next number, going from
/// 4294967295 back to 0.
pub proof fn law_frames_numbered_in_turn(start: u32, n: nat)
    ensures
        frame_number(0, 1) == 1,
        frame_number(start, 0) == start,
        frame_number(start, n + 1) == if frame_number(start, n) == 0xFFFF_FFFF {
            0u32
        } else {
            (frame_number(start, n) + 1) as u32
        },
{
    let a = (start + n) % 0x1_0000_0000;
    let b = (start + n + 1) % 0x1_0000_0000;
    assert(b == if a == 0xFFFF_FFFF { 0 } else { a + 1 }) by (nonlinear_arith)
        requires
            a == (start + n) % 0x1_0000_0000,
            b == (start + n + 1) % 0x1_0000_0000,
            start + n >= 0,
    ;
}

/// Law: the session's fixed numbers: the handshake on TCP port 5000 (the
/// video also leaves from UDP port 5000), control on TCP port 5001, a
/// client's default UDP port 50000, 20 percent parity on the server, a
/// client decoder keeping 16 frames, a yield after every 32 packets, 4 MiB
/// socket buffers and a type-of-service byte of 0xA0 (DSCP 40).
pub proof fn law_session_numbers()
    ensures
        VIDEO_PORT == 5000,
        CONTROL_PORT == 5001,
        DEFAULT_CLIENT_UDP_PORT == 50000,
        SERVER_FEC_PERCENTAGE == 20,
        CLIENT_ACTIVE_FRAMES == 16,
        PACING_BATCH == 32,
        VIDEO_SOCKET_BUFFER_BYTES == 4 * 1024 * 1024,
        VIDEO_TOS == 0xA0,
{
}

/// One streaming session: the encoder output is cut into access units, each
/// numbered and encoded into packets.
pub struct StreamSession {
    extractor: NalExtractor,
    frame_counter: u32,
    codec_id: u8,
}

proof fn lemma_unit_len_le_concat(units: Seq<Seq<u8>>, k: int)
    requires
        0 <= k < units.len(),
    ensures
        units[k].len() <= concat_units(units).len(),
    decreases units.len(),
{
    if k < units.len() - 1 {
        lemma_unit_len_le_concat(units.drop_last(), k);
        assert(units.drop_last()[k] == units[k]);
    }
}

impl StreamSession {
    /// The index of the last frame numbered.
    pub closed spec fn counter(&self) -> u32 {
        self.frame_counter
    }

    /// The codec number that the packets carry.
    pub closed spec fn codec_number(&self) -> u8 {
        self.codec_id
    }

    /// The codec the extractor splits by.
    pub closed spec fn codec(&self) -> VideoCodec {
        self.extractor.codec_spec()
    }

    /// Encoder output received and not yet cut into units.
    pub closed spec fn pending(&self) -> Seq<u8> {
        self.extractor.pending()
    }

    /// Number of bytes of encoder output buffered.
    pub fn pending_len(&self) -> (n: usize)
        ensures
            n == self.pending().len(),
    {
        self.extractor.buffered_len()
    }

    /// A session streaming `codec`, before its first frame.
    pub fn new(codec: VideoCodec) -> (r: Self)
        ensures
            r.codec() == codec,
            r.codec_number() == codec_number(codec),
            r.counter() == 0,
            r.pending() == Seq::<u8>::empty(),
    {
        StreamSession { extractor: NalExtractor::new(codec), frame_counter: 0, codec_id: codec_id(codec) }
    }

    /// Takes one chunk of encoder output and gives, for each access unit it
    /// completes, the packets to send: units are numbered on from the last
    /// frame (modulo 2^32) and encoded with `encoder`; a unit that cannot be
    /// encoded is skipped but keeps its number.
    pub fn ingest(&mut self, encoder: &FecEncoder, chunk: &[u8]) -> (frames: Vec<Vec<Vec<u8>>>)
        requires
            old(self).pending().len() + chunk@.len() + RTP_PAYLOAD_MAX_SIZE <= usize::MAX,
            5 <= encoder.percentage() <= 50,
        ensures
            final(self).codec() == old(self).codec(),
            final(self).codec_number() == old(self).codec_number(),
            ({
                let b = old(self).pending() + chunk@;
                let (units, last) = extract_units(b, old(self).codec());
                &&& final(self).pending() == b.subrange(last, b.len() as int)
                &&& final(self).counter() == frame_number(old(self).counter(), units.len())
                &&& frames@.len() == units.len()
                &&& forall|i: int|
                    0 <= i < units.len() ==> shard_views(#[trigger] frames@[i]@) == unit_packets(
                        frame_number(old(self).counter(), (i + 1) as nat),
                        old(self).codec_number(),
                        units[i],
                        encoder.percentage() as nat,
                    )
            }),
    {
        let ghost b = self.extractor.pending() + chunk@;
        let ghost start = self.frame_counter;
        let units = self.extractor.push_bytes(chunk);
        let ghost (gunits, last) = extract_units(b, self.extractor.codec_spec());
        let ghost extractor_after = self.extractor;
        proof {
            law_units_tile_stream(b, self.extractor.codec_spec());
            if gunits.len() > 0 {
                assert(concat_units(gunits).len() <= b.len());
            }
        }
        let mut frames: Vec<Vec<Vec<u8>>> = Vec::new();
        let mut i: usize = 0;
        while i < units.len()
            invariant
                i <= units@.len(),
                units@.len() == gunits.len(),
                forall|k: int| 0 <= k < units@.len() ==> (#[trigger] units@[k])@ == gunits[k],
                gunits.len() > 0 ==> concat_units(gunits).len() <= b.len(),
                b.len() + RTP_PAYLOAD_MAX_SIZE <= usize::MAX,
                5 <= encoder.percentage() <= 50,
                self.frame_counter == frame_number(start, i as nat),
                self.codec_id == old(self).codec_number(),
                self.extractor == extractor_after,
                frames@.len() == i,
                forall|k: int|
                    0 <= k < i ==> shard_views(#[trigger] frames@[k]@) == unit_packets(
                        frame_number(start, (k + 1) as nat),
                        self.codec_id,
                        gunits[k],
                        encoder.percentage() as nat,
                    ),
            decreases units@.len() - i,
        {
            proof {
                lemma_unit_len_le_concat(gunits, i as int);
            }
            self.frame_counter = self.frame_counter.wrapping_add(1);
            assert(self.frame_counter == frame_number(start, (i + 1) as nat));
            let unit = &units[i];
            let packets = match encoder.encode_frame(self.frame_counter, self.codec_id, unit.as_slice()) {
                Ok(p) => p,
                Err(_) => Vec::new(),
            };
            assert(shard_views(packets@) == unit_packets(
                frame_number(start, (i + 1) as nat),
                self.codec_id,
                gunits[i as int],
                encoder.percentage() as nat,
            )) by {
                if !encodable(gunits[i as int].len(), encoder.percentage() as nat) {
                    assert(shard_views(packets@) =~= Seq::<Seq<u8>>::empty());
                }
            }
            frames.push(packets);
            i = i + 1;
        }
        frames
    }
}

/// Whether the sender yields after sending packet `i` of `total`: after
/// every full burst of `PACING_BATCH` packets, except after the last packet.
pub fn pacing_yield_after(i: usize, total: usize) -> (y: bool)
    requires
        i < total,
    ensures
        y == ((i + 1) % (PACING_BATCH as int) == 0 && i + 1 < total),
{
    (i + 1) % PACING_BATCH == 0 && i + 1 < total
}

} // verus!
