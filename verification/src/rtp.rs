//! The 16-byte header that precedes every video shard on the wire.
//!
//! Layout (big endian): magic (2), frame index (4), packet index (2),
//! data shard count (2), parity shard count (2), payload size (2),
//! flags (1), codec (1).

use byteorder::{BigEndian, ByteOrder};
use vstd::prelude::*;

verus! {

/// Marker at the start of every packet ("RS").
pub const RTP_MAGIC: u16 = 0x5253;

/// Size of the serialized header.
pub const RTP_HEADER_SIZE: usize = 16;

/// Largest payload carried by one packet (one shard).
pub const RTP_PAYLOAD_MAX_SIZE: usize = 1380;

/// Largest packet: header plus a full shard (fits a 1500-byte MTU).
pub const RTP_PACKET_MAX_SIZE: usize = 1396;

/// Flag: first packet of a frame.
pub const FLAG_SOF: u8 = 0x01;

/// Flag: last data packet of a frame.
pub const FLAG_EOF: u8 = 0x02;

/// Flag: the packet carries a parity shard.
pub const FLAG_PARITY: u8 = 0x04;

/// Header of one video packet.
#[derive(Debug, Clone, Copy, PartialEq, Eq, Structural)]
pub struct VideoRtpHeader {
    pub frame_index: u32,
    pub packet_index: u16,
    pub total_data_shards: u16,
    pub total_parity_shards: u16,
    pub payload_size: u16,
    pub flags: u8,
    /// 0 = H.264, 1 = HEVC.
    pub codec: u8,
}

/// Big-endian bytes of a 16-bit value.
pub open spec fn be16(n: u16) -> Seq<u8> {
    seq![(n / 256) as u8, (n % 256) as u8]
}

/// Big-endian bytes of a 32-bit value.
pub open spec fn be32(n: u32) -> Seq<u8> {
    seq![
        (n / 0x100_0000) as u8,
        ((n / 0x1_0000) % 256) as u8,
        ((n / 256) % 256) as u8,
        (n % 256) as u8,
    ]
}

/// The 16-bit value whose big-endian bytes are `b0 b1`.
pub open spec fn from_be16(b0: u8, b1: u8) -> u16 {
    (b0 * 256 + b1) as u16
}

/// The 32-bit value whose big-endian bytes are `b0 b1 b2 b3`.
pub open spec fn from_be32(b0: u8, b1: u8, b2: u8, b3: u8) -> u32 {
    (b0 * 0x100_0000 + b1 * 0x1_0000 + b2 * 256 + b3) as u32
}

/// The 16 bytes that encode a header.
pub open spec fn header_bytes(h: VideoRtpHeader) -> Seq<u8> {
    be16(RTP_MAGIC) + be32(h.frame_index) + be16(h.packet_index) + be16(h.total_data_shards)
        + be16(h.total_parity_shards) + be16(h.payload_size) + seq![h.flags, h.codec]
}

/// The header that the first 16 bytes of `b` encode (magic not checked).
pub open spec fn header_of(b: Seq<u8>) -> VideoRtpHeader {
    VideoRtpHeader {
        frame_index: from_be32(b[2], b[3], b[4], b[5]),
        packet_index: from_be16(b[6], b[7]),
        total_data_shards: from_be16(b[8], b[9]),
        total_parity_shards: from_be16(b[10], b[11]),
        payload_size: from_be16(b[12], b[13]),
        flags: b[14],
        codec: b[15],
    }
}

/// What `deserialize` gives for the bytes `b`.
pub open spec fn parse_header(b: Seq<u8>) -> Option<VideoRtpHeader> {
    if b.len() < 16 || from_be16(b[0], b[1]) != RTP_MAGIC {
        None
    } else {
        Some(header_of(b))
    }
}

/// `BigEndian::write_u16` of byteorder on a two-byte buffer.
/// Claimed: the buffer holds the big-endian bytes of `n` afterwards.
#[verifier::external_body]
fn u16_be_bytes(n: u16) -> (r: [u8; 2])
    ensures
        r@ == be16(n),
{
    let mut b = [0u8; 2];
    BigEndian::write_u16(&mut b, n);
    b
}

/// `BigEndian::write_u32` of byteorder on a four-byte buffer.
/// Claimed: the buffer holds the big-endian bytes of `n` afterwards.
#[verifier::external_body]
fn u32_be_bytes(n: u32) -> (r: [u8; 4])
    ensures
        r@ == be32(n),
{
    let mut b = [0u8; 4];
    BigEndian::write_u32(&mut b, n);
    b
}

/// `BigEndian::read_u16` of byteorder, which panics on fewer than two bytes.
/// Claimed: the value whose big-endian bytes are the first two of `buf`.
#[verifier::external_body]
fn read_u16_be(buf: &[u8]) -> (r: u16)
    requires
        buf@.len() >= 2,
    ensures
        r == from_be16(buf@[0], buf@[1]),
{
    BigEndian::read_u16(buf)
}

/// `BigEndian::read_u32` of byteorder, which panics on fewer than four bytes.
/// Claimed: the value whose big-endian bytes are the first four of `buf`.
#[verifier::external_body]
fn read_u32_be(buf: &[u8]) -> (r: u32)
    requires
        buf@.len() >= 4,
    ensures
        r == from_be32(buf@[0], buf@[1], buf@[2], buf@[3]),
{
    BigEndian::read_u32(buf)
}

/// Reading back the big-endian bytes of a 16-bit value gives the value.
pub proof fn lemma_be16_roundtrip(n: u16)
    ensures
        from_be16(be16(n)[0], be16(n)[1]) == n,
{
}

/// Reading back the big-endian bytes of a 32-bit value gives the value.
pub proof fn lemma_be32_roundtrip(n: u32)
    ensures
        from_be32(be32(n)[0], be32(n)[1], be32(n)[2], be32(n)[3]) == n,
{
    let b = be32(n);
    assert(b[0] * 0x100_0000 + b[1] * 0x1_0000 + b[2] * 256 + b[3] == n) by (nonlinear_arith)
        requires
            b[0] == n / 0x100_0000,
            b[1] == (n / 0x1_0000) % 256,
            b[2] == (n / 256) % 256,
            b[3] == n % 256,
            0 <= n < 0x1_0000_0000,
    ;
}

/// Decoding what `serialize` writes, whatever follows it, gives back the same
/// header.
pub proof fn lemma_header_roundtrip(h: VideoRtpHeader, rest: Seq<u8>)
    ensures
        parse_header(header_bytes(h) + rest) == Some(h),
{
    let b = header_bytes(h) + rest;
    lemma_be16_roundtrip(RTP_MAGIC);
    lemma_be32_roundtrip(h.frame_index);
    lemma_be16_roundtrip(h.packet_index);
    lemma_be16_roundtrip(h.total_data_shards);
    lemma_be16_roundtrip(h.total_parity_shards);
    lemma_be16_roundtrip(h.payload_size);
    assert(b.len() >= 16);
    assert(b[0] == be16(RTP_MAGIC)[0] && b[1] == be16(RTP_MAGIC)[1]);
    assert(b[2] == be32(h.frame_index)[0] && b[3] == be32(h.frame_index)[1]);
    assert(b[4] == be32(h.frame_index)[2] && b[5] == be32(h.frame_index)[3]);
    assert(b[6] == be16(h.packet_index)[0] && b[7] == be16(h.packet_index)[1]);
    assert(b[8] == be16(h.total_data_shards)[0] && b[9] == be16(h.total_data_shards)[1]);
    assert(b[10] == be16(h.total_parity_shards)[0] && b[11] == be16(h.total_parity_shards)[1]);
    assert(b[12] == be16(h.payload_size)[0] && b[13] == be16(h.payload_size)[1]);
    assert(b[14] == h.flags && b[15] == h.codec);
    assert(header_of(b) == h);
}

/// Law: the wire layout of a header. It is 16 bytes: `R` `S` (0x52 0x53),
/// then, most significant byte first, the frame index in bytes 2 to 5, the
/// packet index in bytes 6 and 7, the data shard count in 8 and 9, the
/// parity shard count in 10 and 11 and the payload size in 12 and 13; then
/// the flags byte and the codec byte.
pub proof fn law_header_wire_layout(h: VideoRtpHeader)
    ensures
        ({
            let b = header_bytes(h);
            &&& b.len() == 16
            &&& b[0] == 0x52 && b[1] == 0x53
            &&& b[2] * 0x100_0000 + b[3] * 0x1_0000 + b[4] * 0x100 + b[5] == h.frame_index
            &&& b[6] * 0x100 + b[7] == h.packet_index
            &&& b[8] * 0x100 + b[9] == h.total_data_shards
            &&& b[10] * 0x100 + b[11] == h.total_parity_shards
            &&& b[12] * 0x100 + b[13] == h.payload_size
            &&& b[14] == h.flags && b[15] == h.codec
        }),
{
    let b = header_bytes(h);
    lemma_be32_roundtrip(h.frame_index);
    lemma_be16_roundtrip(h.packet_index);
    lemma_be16_roundtrip(h.total_data_shards);
    lemma_be16_roundtrip(h.total_parity_shards);
    lemma_be16_roundtrip(h.payload_size);
    assert(b[0] == be16(RTP_MAGIC)[0] && b[1] == be16(RTP_MAGIC)[1]);
    assert(b[2] == be32(h.frame_index)[0] && b[3] == be32(h.frame_index)[1]);
    assert(b[4] == be32(h.frame_index)[2] && b[5] == be32(h.frame_index)[3]);
    assert(b[6] == be16(h.packet_index)[0] && b[7] == be16(h.packet_index)[1]);
    assert(b[8] == be16(h.total_data_shards)[0] && b[9] == be16(h.total_data_shards)[1]);
    assert(b[10] == be16(h.total_parity_shards)[0] && b[11] == be16(h.total_parity_shards)[1]);
    assert(b[12] == be16(h.payload_size)[0] && b[13] == be16(h.payload_size)[1]);
}

impl VideoRtpHeader {
    /// Writes the header into the first 16 bytes of `buf`; the rest is untouched.
    pub fn serialize(&self, buf: &mut [u8])
        requires
            old(buf)@.len() >= RTP_HEADER_SIZE,
        ensures
            final(buf)@ == header_bytes(*self) + old(buf)@.subrange(16, old(buf)@.len() as int),
    {
        let magic = u16_be_bytes(RTP_MAGIC);
        let fi = u32_be_bytes(self.frame_index);
        let pi = u16_be_bytes(self.packet_index);
        let ds = u16_be_bytes(self.total_data_shards);
        let ps = u16_be_bytes(self.total_parity_shards);
        let sz = u16_be_bytes(self.payload_size);
        buf[0] = magic[0];
        buf[1] = magic[1];
        buf[2] = fi[0];
        buf[3] = fi[1];
        buf[4] = fi[2];
        buf[5] = fi[3];
        buf[6] = pi[0];
        buf[7] = pi[1];
        buf[8] = ds[0];
        buf[9] = ds[1];
        buf[10] = ps[0];
        buf[11] = ps[1];
        buf[12] = sz[0];
        buf[13] = sz[1];
        buf[14] = self.flags;
        buf[15] = self.codec;
        assert(buf@ =~= header_bytes(*self) + old(buf)@.subrange(16, old(buf)@.len() as int));
    }

    /// Reads a header from the start of `buf`: `None` when `buf` is shorter than
    /// 16 bytes or does not start with the magic.
    pub fn deserialize(buf: &[u8]) -> (r: Option<Self>)
        ensures
            r == parse_header(buf@),
    {
        if buf.len() < RTP_HEADER_SIZE {
            return None;
        }
        let magic = read_u16_be(&buf[0..2]);
        if magic != RTP_MAGIC {
            return None;
        }
        Some(Self {
            frame_index: read_u32_be(&buf[2..6]),
            packet_index: read_u16_be(&buf[6..8]),
            total_data_shards: read_u16_be(&buf[8..10]),
            total_parity_shards: read_u16_be(&buf[10..12]),
            payload_size: read_u16_be(&buf[12..14]),
            flags: buf[14],
            codec: buf[15],
        })
    }
}

} // verus!
