//! Forward error correction for video frames.
//!
//! A frame is cut into data shards of `RTP_PAYLOAD_MAX_SIZE` bytes (the last
//! one zero-padded), a number of Reed-Solomon parity shards proportional to the
//! configured percentage is added, and every shard travels in its own packet
//! behind a `VideoRtpHeader`. The decoder gathers the packets of each frame and
//! hands the frame out as soon as enough shards are there, rebuilding lost
//! data shards from parity.

use crate::erasure::{
    codeword, recoverable, count_present, opt_shard_views, present_of_len, rs_encode, rs_new,
    rs_reconstruct, rs_rebuilt, shard_views,
};
use crate::rtp::{
    header_bytes, parse_header, VideoRtpHeader, FLAG_EOF, FLAG_PARITY, FLAG_SOF, RTP_HEADER_SIZE,
    RTP_PACKET_MAX_SIZE, RTP_PAYLOAD_MAX_SIZE,
};
use crate::frame_keys::{lemma_frame_keys_ordered, min_key, oldest_key};
use std::collections::BTreeMap;
use vstd::prelude::*;

verus! {

/// Errors of the FEC layer.
#[derive(Debug, Clone, Copy, PartialEq, Eq, Structural)]
pub enum FecError {
    /// The Reed-Solomon codec could not be made (more than 256 shards).
    CodecInit,
    /// Computing parity failed.
    Encode,
    /// Rebuilding missing shards failed.
    Reconstruct,
    /// The frame to rebuild is not pending.
    FrameMissing,
}

/// The percentage `FecEncoder::new` keeps: clamped to 5..=50.
pub open spec fn clamp_percentage(p: usize) -> usize {
    if p < 5 {
        5
    } else if p > 50 {
        50
    } else {
        p
    }
}

/// Number of data shards for a frame of `len` bytes.
pub open spec fn data_shard_count(len: nat) -> nat {
    (len + (RTP_PAYLOAD_MAX_SIZE - 1)) as nat / RTP_PAYLOAD_MAX_SIZE as nat
}

/// Number of parity shards for `d` data shards at `pct` percent: rounded up,
/// at least one.
pub open spec fn parity_shard_count(d: nat, pct: nat) -> nat {
    let q = (d * pct + 99) / 100;
    if q < 1 {
        1
    } else {
        q
    }
}

/// End of the bytes of data shard `i` in a frame of `len` bytes.
pub open spec fn shard_end(len: nat, i: nat) -> nat {
    if i * RTP_PAYLOAD_MAX_SIZE + RTP_PAYLOAD_MAX_SIZE <= len {
        (i * RTP_PAYLOAD_MAX_SIZE + RTP_PAYLOAD_MAX_SIZE) as nat
    } else {
        len
    }
}

/// Data shard `i` of `frame`: its slice of the frame, zero-padded to a full
/// shard.
pub open spec fn data_shard(frame: Seq<u8>, i: nat) -> Seq<u8> {
    let start = i * RTP_PAYLOAD_MAX_SIZE;
    let end = shard_end(frame.len(), i);
    frame.subrange(start as int, end as int) + Seq::new(
        (RTP_PAYLOAD_MAX_SIZE - (end - start)) as nat,
        |k: int| 0u8,
    )
}

/// All data shards of `frame`.
pub open spec fn frame_data_shards(frame: Seq<u8>) -> Seq<Seq<u8>> {
    Seq::new(data_shard_count(frame.len()), |i: int| data_shard(frame, i as nat))
}

/// Flags of packet `idx` of a frame with `d` data shards.
pub open spec fn packet_flags(idx: nat, d: nat) -> u8 {
    ((if idx == 0 {
        FLAG_SOF
    } else {
        0u8
    }) + (if idx == d - 1 {
        FLAG_EOF
    } else {
        0u8
    }) + (if idx >= d {
        FLAG_PARITY
    } else {
        0u8
    })) as u8
}

/// Header of packet `idx` of frame `frame_index` (`len` bytes, `d` data and
/// `p` parity shards).
pub open spec fn packet_header(
    frame_index: u32,
    codec: u8,
    len: nat,
    d: nat,
    p: nat,
    idx: nat,
) -> VideoRtpHeader {
    VideoRtpHeader {
        frame_index,
        packet_index: idx as u16,
        total_data_shards: d as u16,
        total_parity_shards: p as u16,
        payload_size: if idx < d {
            (shard_end(len, idx) - idx * RTP_PAYLOAD_MAX_SIZE) as u16
        } else {
            RTP_PAYLOAD_MAX_SIZE as u16
        },
        flags: packet_flags(idx, d),
        codec,
    }
}

/// The packets that encode `frame`: one per data shard, then one per parity
/// shard, each a header followed by the shard.
pub open spec fn encoded_packets(frame_index: u32, codec: u8, frame: Seq<u8>, pct: nat) -> Seq<
    Seq<u8>,
> {
    let d = data_shard_count(frame.len());
    let p = parity_shard_count(d, pct);
    let shards = codeword(frame_data_shards(frame), p);
    if frame.len() == 0 {
        seq![]
    } else {
        Seq::new(
            d + p,
            |idx: int|
                header_bytes(packet_header(frame_index, codec, frame.len(), d, p, idx as nat))
                    + shards[idx],
        )
    }
}

/// What encoding `frame` at `pct` percent establishes of the parity it adds:
/// one shard per parity slot, each a full shard, and the encoded set is
/// recoverable from any `d` of its shards.
pub open spec fn encoding_facts(frame: Seq<u8>, pct: nat) -> bool {
    let d = data_shard_count(frame.len());
    let p = parity_shard_count(d, pct);
    let cw = codeword(frame_data_shards(frame), p);
    &&& cw.len() == d + p
    &&& forall|k: int| 0 <= k < cw.len() ==> #[trigger] cw[k].len() == RTP_PAYLOAD_MAX_SIZE
    &&& recoverable(cw, d, p)
}

/// Whether `encode_frame` can encode a frame of `len` bytes at `pct` percent:
/// Reed-Solomon over GF(2^8) has at most 256 shards.
pub open spec fn encodable(len: nat, pct: nat) -> bool {
    len == 0 || data_shard_count(len) + parity_shard_count(data_shard_count(len), pct) <= 256
}

/// Cuts frames into shards and adds Reed-Solomon parity.
pub struct FecEncoder {
    fec_percentage: usize,
}

impl FecEncoder {
    /// The parity percentage in use.
    pub closed spec fn percentage(&self) -> usize {
        self.fec_percentage
    }

    /// An encoder adding `fec_percentage` percent parity, clamped to 5..=50.
    pub fn new(fec_percentage: usize) -> (r: Self)
        ensures
            r.percentage() == clamp_percentage(fec_percentage),
    {
        let p = if fec_percentage < 5 {
            5
        } else if fec_percentage > 50 {
            50
        } else {
            fec_percentage
        };
        Self { fec_percentage: p }
    }

    /// Encodes one frame into its packets (data shards, then parity). An empty
    /// frame gives no packet. Fails when the frame needs more than 256 shards.
    pub fn encode_frame(&self, frame_index: u32, codec_id: u8, frame_data: &[u8]) -> (r: Result<
        Vec<Vec<u8>>,
        FecError,
    >)
        requires
            frame_data@.len() + RTP_PAYLOAD_MAX_SIZE <= usize::MAX,
            5 <= self.percentage() <= 50,
        ensures
            r is Ok <==> encodable(frame_data@.len(), self.percentage() as nat),
            r matches Ok(packets) ==> shard_views(packets@) == encoded_packets(
                frame_index,
                codec_id,
                frame_data@,
                self.percentage() as nat,
            ),
            r matches Err(e) ==> e == FecError::CodecInit,
            r matches Ok(packets) ==> forall|k: int|
                0 <= k < packets@.len() ==> #[trigger] packets@[k]@.len() == RTP_PACKET_MAX_SIZE,
            r is Ok && frame_data@.len() > 0 ==> encoding_facts(
                frame_data@,
                self.percentage() as nat,
            ),
    {
        let total_bytes = frame_data.len();
        let ghost frame = frame_data@;
        if total_bytes == 0 {
            let empty: Vec<Vec<u8>> = Vec::new();
            assert(shard_views(empty@) =~= encoded_packets(
                frame_index,
                codec_id,
                frame,
                self.percentage() as nat,
            ));
            return Ok(empty);
        }
        let shard_size = RTP_PAYLOAD_MAX_SIZE;
        let data_shards = (total_bytes + shard_size - 1) / shard_size;
        let pct = self.fec_percentage;
        assert(data_shards * pct <= data_shards * 50) by (nonlinear_arith)
            requires
                pct <= 50,
        ;
        assert(data_shards <= usize::MAX / 1380 + 1);
        let q = (data_shards * pct + 99) / 100;
        let parity_shards = if q < 1 {
            1
        } else {
            q
        };
        assert(data_shards == data_shard_count(frame.len()));
        assert(parity_shards == parity_shard_count(data_shards as nat, pct as nat));

        let rs = match rs_new(data_shards, parity_shards) {
            Ok(rs) => rs,
            Err(_) => {
                return Err(FecError::CodecInit);
            },
        };

        let total_shards = data_shards + parity_shards;
        let mut shards: Vec<Vec<u8>> = Vec::with_capacity(total_shards);
        let mut i: usize = 0;
        while i < data_shards
            invariant
                0 <= i <= data_shards,
                data_shards == data_shard_count(frame.len()),
                data_shards <= 256,
                total_bytes == frame.len(),
                frame == frame_data@,
                shard_size == RTP_PAYLOAD_MAX_SIZE,
                shards@.len() == i,
                forall|k: int| 0 <= k < i ==> #[trigger] shards@[k]@ == data_shard(frame, k as nat),
            decreases data_shards - i,
        {
            let start = i * shard_size;
            assert(start < total_bytes) by (nonlinear_arith)
                requires
                    i < data_shards,
                    data_shards == (total_bytes + 1379) / 1380,
                    start == i * 1380,
            ;
            let end = if start + shard_size <= total_bytes {
                start + shard_size
            } else {
                total_bytes
            };
            let mut shard: Vec<u8> = Vec::with_capacity(shard_size);
            shard.extend_from_slice(&frame_data[start..end]);
            assert(shard@ =~= frame.subrange(start as int, end as int));
            shard.resize(shard_size, 0u8);
            assert(shard@ =~= data_shard(frame, i as nat));
            shards.push(shard);
            i += 1;
        }
        let mut j: usize = 0;
        while j < parity_shards
            invariant
                0 <= j <= parity_shards,
                shard_size == RTP_PAYLOAD_MAX_SIZE,
                shards@.len() == data_shards + j,
                forall|k: int|
                    0 <= k < data_shards ==> #[trigger] shards@[k]@ == data_shard(frame, k as nat),
                forall|k: int|
                    data_shards <= k < data_shards + j ==> #[trigger] shards@[k]@.len()
                        == RTP_PAYLOAD_MAX_SIZE,
            decreases parity_shards - j,
        {
            shards.push(vec![0u8; shard_size]);
            j += 1;
        }
        let ghost before = shard_views(shards@);
        assert(before.subrange(0, data_shards as int) =~= frame_data_shards(frame));
        assert forall|k: int| 0 <= k < before.len() implies #[trigger] before[k].len()
            == before[0].len() by {}
        match rs_encode(&rs, &mut shards) {
            Ok(()) => {},
            Err(_) => {
                return Err(FecError::Encode);
            },
        }
        let ghost coded = shard_views(shards@);
        assert(coded.len() == shards@.len());
        assert(encoding_facts(frame, self.percentage() as nat));
        assert(coded == codeword(frame_data_shards(frame), parity_shards as nat));

        let mut packets: Vec<Vec<u8>> = Vec::with_capacity(total_shards);
        let mut packet_idx: usize = 0;
        while packet_idx < total_shards
            invariant
                0 <= packet_idx <= total_shards,
                total_shards == data_shards + parity_shards,
                total_shards <= 256,
                data_shards >= 1,
                data_shards == (total_bytes + 1379) / 1380,
                shard_size == RTP_PAYLOAD_MAX_SIZE,
                total_bytes == frame.len(),
                shards@.len() == total_shards,
                shard_views(shards@) == coded,
                packets@.len() == packet_idx,
                forall|k: int| 0 <= k < coded.len() ==> #[trigger] coded[k].len() == RTP_PAYLOAD_MAX_SIZE,
                forall|k: int|
                    0 <= k < packet_idx ==> #[trigger] packets@[k]@.len() == RTP_PACKET_MAX_SIZE,
                forall|k: int|
                    0 <= k < packet_idx ==> #[trigger] packets@[k]@ == header_bytes(
                        packet_header(
                            frame_index,
                            codec_id,
                            frame.len(),
                            data_shards as nat,
                            parity_shards as nat,
                            k as nat,
                        ),
                    ) + coded[k],
            decreases total_shards - packet_idx,
        {
            let is_parity = packet_idx >= data_shards;
            let payload_size = if !is_parity {
                let start = packet_idx * shard_size;
                assert(start < total_bytes) by (nonlinear_arith)
                    requires
                        packet_idx < data_shards,
                        data_shards == (total_bytes + 1379) / 1380,
                        start == packet_idx * 1380,
                ;
                let end = if start + shard_size <= total_bytes {
                    start + shard_size
                } else {
                    total_bytes
                };
                assert(start <= end <= start + 1380);
                (end - start) as u16
            } else {
                shard_size as u16
            };
            let mut flags = 0u8;
            if packet_idx == 0 {
                assert(0u8 | 1u8 == 1u8) by (bit_vector);
                flags |= FLAG_SOF;
            }
            assert(flags == 0 || flags == 1);
            if packet_idx == data_shards - 1 {
                assert(flags | 2u8 == flags + 2) by (bit_vector)
                    requires
                        flags == 0 || flags == 1,
                ;
                flags |= FLAG_EOF;
            }
            if is_parity {
                assert(flags | 4u8 == flags + 4) by (bit_vector)
                    requires
                        flags <= 3,
                ;
                flags |= FLAG_PARITY;
            }
            assert(flags == packet_flags(packet_idx as nat, data_shards as nat));
            let header = VideoRtpHeader {
                frame_index,
                packet_index: packet_idx as u16,
                total_data_shards: data_shards as u16,
                total_parity_shards: parity_shards as u16,
                payload_size,
                flags,
                codec: codec_id,
            };
            assert(header == packet_header(
                frame_index,
                codec_id,
                frame.len(),
                data_shards as nat,
                parity_shards as nat,
                packet_idx as nat,
            ));
            let mut packet: Vec<u8> = vec![0u8; RTP_HEADER_SIZE];
            header.serialize(packet.as_mut_slice());
            packet.extend_from_slice(shards[packet_idx].as_slice());
            assert(packet@ =~= header_bytes(header) + coded[packet_idx as int]);
            packets.push(packet);
            packet_idx += 1;
        }
        assert(shard_views(packets@) =~= encoded_packets(
            frame_index,
            codec_id,
            frame,
            self.percentage() as nat,
        ));
        Ok(packets)
    }
}


/// A frame handed out by the decoder.
pub struct DecodedFrame {
    pub frame_index: u32,
    pub codec: u8,
    pub data: Vec<u8>,
}

/// A frame whose shards are still being gathered, as the contracts see it.
pub struct PendingModel {
    pub total_data: usize,
    pub total_parity: usize,
    pub shard_size: usize,
    pub codec: u8,
    /// Payload size announced by each data packet received (0 if not yet).
    pub payload_sizes: Seq<usize>,
    /// One slot per shard, data first.
    pub shards: Seq<Option<Seq<u8>>>,
    pub received: usize,
}

/// The decoder as the contracts see it.
pub struct DecoderModel {
    pub pending: Map<u32, PendingModel>,
    pub max_active: usize,
    pub last_emitted: Option<u32>,
}

/// A frame handed out, as (frame index, codec, bytes).
pub type FrameModel = (u32, u8, Seq<u8>);

/// Invariant of a pending frame.
#[verifier::opaque]
pub open spec fn pending_wf(p: PendingModel) -> bool {
    &&& p.total_data > 0
    &&& p.shards.len() == p.total_data + p.total_parity
    &&& p.payload_sizes.len() == p.total_data
    &&& p.received == count_present(p.shards, p.shards.len() as int)
    &&& forall|k: int|
        0 <= k < p.shards.len() && #[trigger] p.shards[k] is Some ==> p.shards[k].unwrap().len()
            == p.shard_size
}

/// Invariant of the decoder.
pub open spec fn decoder_wf(m: DecoderModel) -> bool {
    &&& m.max_active >= 4
    &&& m.pending.dom().finite()
    &&& forall|k: u32| #[trigger] m.pending.contains_key(k) ==> pending_wf(m.pending[k])
}

/// The entry opened for a frame by its first packet `h` with a payload of
/// `shard_size` bytes.
pub open spec fn new_pending(h: VideoRtpHeader, shard_size: nat) -> PendingModel {
    PendingModel {
        total_data: h.total_data_shards as usize,
        total_parity: h.total_parity_shards as usize,
        shard_size: shard_size as usize,
        codec: h.codec,
        payload_sizes: Seq::new(h.total_data_shards as nat, |k: int| 0usize),
        shards: Seq::new(
            (h.total_data_shards + h.total_parity_shards) as nat,
            |k: int| None::<Seq<u8>>,
        ),
        received: 0,
    }
}

/// The shard kept for a payload: cut or zero-padded to `shard_size` bytes.
pub open spec fn stored_shard(payload: Seq<u8>, shard_size: nat) -> Seq<u8> {
    if payload.len() <= shard_size {
        payload + Seq::new((shard_size - payload.len()) as nat, |k: int| 0u8)
    } else {
        payload.subrange(0, shard_size as int)
    }
}

/// Records the shard of packet `h` unless its slot is already filled.
pub open spec fn add_shard(p: PendingModel, h: VideoRtpHeader, payload: Seq<u8>) -> PendingModel {
    let idx = h.packet_index as int;
    if p.shards[idx] is Some {
        p
    } else {
        PendingModel {
            total_data: p.total_data,
            total_parity: p.total_parity,
            shard_size: p.shard_size,
            codec: p.codec,
            payload_sizes: if idx < h.total_data_shards {
                p.payload_sizes.update(idx, h.payload_size as usize)
            } else {
                p.payload_sizes
            },
            shards: p.shards.update(idx, Some(stored_shard(payload, p.shard_size as nat))),
            received: (p.received + 1) as usize,
        }
    }
}

/// Whether the decoder drops packet `h` without looking at its payload: the
/// frame was already handed out (within the last 500 frames), or the header
/// is inconsistent.
pub open spec fn ignored(m: DecoderModel, h: VideoRtpHeader) -> bool {
    ||| (m.last_emitted matches Some(l) && h.frame_index <= l && l - h.frame_index < 500)
    ||| h.packet_index >= h.total_data_shards + h.total_parity_shards
    ||| h.total_data_shards == 0
}

/// A packet that the decoder takes up must fit the slots of the frame entry
/// it joins (the slots are sized by the frame's first packet).
pub open spec fn packet_fits(m: DecoderModel, packet: Seq<u8>) -> bool {
    match parse_header(packet) {
        Some(h) => !ignored(m, h) && m.pending.contains_key(h.frame_index) ==> {
            let p = m.pending[h.frame_index];
            &&& h.packet_index < p.shards.len()
            &&& h.packet_index < h.total_data_shards ==> h.packet_index < p.payload_sizes.len()
        },
        None => true,
    }
}

/// All data shards of `p` are present.
pub open spec fn data_complete(p: PendingModel) -> bool {
    forall|k: int| 0 <= k < p.total_data ==> #[trigger] p.shards[k] is Some
}

/// The shard slots once missing data shards are rebuilt (when needed).
pub open spec fn rebuild(p: PendingModel) -> Result<Seq<Option<Seq<u8>>>, FecError> {
    let d = p.total_data;
    let q = p.total_parity;
    if data_complete(p) {
        Ok(p.shards)
    } else if !(d > 0 && q > 0 && d + q <= 256) {
        Err(FecError::Reconstruct)
    } else if !(p.shards.len() == d + q && count_present(p.shards, p.shards.len() as int) >= d
        && exists|n: nat| present_of_len(p.shards, n)) {
        Err(FecError::Reconstruct)
    } else {
        Ok(Seq::new(p.shards.len(), |k: int| Some(rs_rebuilt(p.shards, d as nat, q as nat)[k])))
    }
}

/// How many bytes of data shard `i` (of `d`) belong to the frame.
pub open spec fn take_len(shard_len: nat, psize: usize, i: nat, d: nat, shard_size: nat) -> nat {
    if psize > 0 && psize <= shard_len {
        psize as nat
    } else if i == d - 1 {
        shard_len
    } else {
        shard_size
    }
}

/// The frame bytes held by the first `n` of `d` data shards.
pub open spec fn assemble(
    shards: Seq<Option<Seq<u8>>>,
    sizes: Seq<usize>,
    d: nat,
    shard_size: nat,
    n: nat,
) -> Seq<u8>
    decreases n,
{
    if n == 0 {
        seq![]
    } else {
        let i = (n - 1) as nat;
        assemble(shards, sizes, d, shard_size, i) + match shards[i as int] {
            Some(s) => s.subrange(0, take_len(s.len(), sizes[i as int], i, d, shard_size) as int),
            None => seq![],
        }
    }
}

/// The frame that pending entry `p` of frame `fi` gives.
pub open spec fn frame_of(fi: u32, p: PendingModel) -> Result<FrameModel, FecError> {
    match rebuild(p) {
        Err(e) => Err(e),
        Ok(sh) => Ok(
            (
                fi,
                p.codec,
                assemble(sh, p.payload_sizes, p.total_data as nat, p.shard_size as nat, p.total_data as nat),
            ),
        ),
    }
}

/// Drops the oldest entries, while more than `limit` remain and the oldest
/// is not newer than `bound`.
pub open spec fn evict_older(m: Map<u32, PendingModel>, limit: nat, bound: u32) -> Map<
    u32,
    PendingModel,
>
    decreases m.dom().len(),
{
    if m.dom().finite() && m.dom().len() > limit && m.dom().contains(min_key(m.dom()))
        && min_key(m.dom()) <= bound {
        evict_older(m.remove(min_key(m.dom())), limit, bound)
    } else {
        m
    }
}

/// The entry that packet `h` (carrying `payload`) leaves for its frame.
pub open spec fn joined_entry(m: DecoderModel, h: VideoRtpHeader, payload: Seq<u8>) -> PendingModel {
    let p0 = if m.pending.contains_key(h.frame_index) {
        m.pending[h.frame_index]
    } else {
        new_pending(h, payload.len())
    };
    add_shard(p0, h, payload)
}

/// The decoder after frame `fi`, whose entry became `p1`, is complete.
pub open spec fn complete_step(m: DecoderModel, fi: u32, p1: PendingModel) -> (
    DecoderModel,
    Result<Option<FrameModel>, FecError>,
) {
    let rest = m.pending.remove(fi);
    match frame_of(fi, p1) {
        Err(e) => (
            DecoderModel { pending: rest, max_active: m.max_active, last_emitted: m.last_emitted },
            Err(e),
        ),
        Ok(f) => (
            DecoderModel {
                pending: evict_older(rest, m.max_active as nat, fi),
                max_active: m.max_active,
                last_emitted: Some(fi),
            },
            Ok(Some(f)),
        ),
    }
}

/// The decoder after frame `fi`, whose entry became `p1`, stays incomplete.
pub open spec fn incomplete_step(m: DecoderModel, fi: u32, p1: PendingModel) -> DecoderModel {
    DecoderModel {
        pending: evict_older(m.pending.insert(fi, p1), 2 * m.max_active as nat, u32::MAX),
        max_active: m.max_active,
        last_emitted: m.last_emitted,
    }
}

/// One step of the decoder: the state after `packet` and what it hands out.
pub open spec fn decode_step(m: DecoderModel, packet: Seq<u8>) -> (
    DecoderModel,
    Result<Option<FrameModel>, FecError>,
) {
    match parse_header(packet) {
        None => (m, Ok(None)),
        Some(h) => {
            if ignored(m, h) {
                (m, Ok(None))
            } else {
                let p1 = joined_entry(m, h, packet.subrange(16, packet.len() as int));
                if p1.received >= p1.total_data {
                    complete_step(m, h.frame_index, p1)
                } else {
                    (incomplete_step(m, h.frame_index, p1), Ok(None))
                }
            }
        },
    }
}

/// The frame handed out, as the contracts see it.
pub open spec fn frame_view(f: DecodedFrame) -> FrameModel {
    (f.frame_index, f.codec, f.data@)
}

/// What `process_packet` returns, as the contracts see it.
pub open spec fn step_result_view(r: Result<Option<DecodedFrame>, FecError>) -> Result<
    Option<FrameModel>,
    FecError,
> {
    match r {
        Ok(Some(f)) => Ok(Some(frame_view(f))),
        Ok(None) => Ok(None),
        Err(e) => Err(e),
    }
}

struct PendingFrame {
    total_data_shards: usize,
    total_parity_shards: usize,
    shard_size: usize,
    codec: u8,
    payload_sizes: Vec<usize>,
    shards: Vec<Option<Vec<u8>>>,
    received_count: usize,
}

impl PendingFrame {
    spec fn model(&self) -> PendingModel {
        PendingModel {
            total_data: self.total_data_shards,
            total_parity: self.total_parity_shards,
            shard_size: self.shard_size,
            codec: self.codec,
            payload_sizes: self.payload_sizes@,
            shards: opt_shard_views(self.shards@),
            received: self.received_count,
        }
    }
}

/// Gathers packets per frame and hands frames out once enough shards are in.
pub struct FecDecoder {
    pending_frames: BTreeMap<u32, PendingFrame>,
    max_active_frames: usize,
    last_emitted_frame: Option<u32>,
}

impl FecDecoder {
    /// The decoder as the contracts see it.
    pub closed spec fn model(&self) -> DecoderModel {
        DecoderModel {
            pending: self.pending_frames@.map_values(|p: PendingFrame| p.model()),
            max_active: self.max_active_frames,
            last_emitted: self.last_emitted_frame,
        }
    }

    /// A decoder keeping at most `max_active_frames` (at least 4) frames.
    pub fn new(max_active_frames: usize) -> (r: Self)
        ensures
            decoder_wf(r.model()),
            r.model().pending == Map::<u32, PendingModel>::empty(),
            r.model().max_active == if max_active_frames < 4 {
                4
            } else {
                max_active_frames
            },
            r.model().last_emitted == None::<u32>,
    {
        let m = if max_active_frames < 4 {
            4
        } else {
            max_active_frames
        };
        let r = Self { pending_frames: BTreeMap::new(), max_active_frames: m, last_emitted_frame: None };
        assert(r.model().pending =~= Map::<u32, PendingModel>::empty());
        r
    }

    /// Processes one raw packet. Once a frame has as many shards as it has
    /// data shards, it is rebuilt and handed out (`Some`); older entries are
    /// then dropped down to `max_active_frames`. Otherwise at most twice that
    /// many frames stay pending, the oldest being dropped first. Malformed or
    /// stale packets are ignored.
    #[verifier::rlimit(90)]
    pub fn process_packet(&mut self, packet_bytes: &[u8]) -> (r: Result<
        Option<DecodedFrame>,
        FecError,
    >)
        requires
            decoder_wf(old(self).model()),
            packet_fits(old(self).model(), packet_bytes@),
            old(self).model().max_active <= usize::MAX / 2,
        ensures
            decoder_wf(final(self).model()),
            (final(self).model(), step_result_view(r)) == decode_step(
                old(self).model(),
                packet_bytes@,
            ),
    {
        broadcast use vstd::std_specs::btree::group_btree_axioms;

        proof {
            lemma_frame_keys_ordered();
        }
        let ghost m = self.model();
        let header = match VideoRtpHeader::deserialize(packet_bytes) {
            Some(h) => h,
            None => return Ok(None),
        };
        assert(parse_header(packet_bytes@) == Some(header));
        if packet_bytes.len() < RTP_HEADER_SIZE {
            return Ok(None);
        }
        let payload = &packet_bytes[RTP_HEADER_SIZE..packet_bytes.len()];
        assert(payload@ == packet_bytes@.subrange(16, packet_bytes@.len() as int));
        let frame_index = header.frame_index;

        if let Some(last_emitted) = self.last_emitted_frame {
            if frame_index <= last_emitted && last_emitted - frame_index < 500 {
                return Ok(None);
            }
        }

        let total_data = header.total_data_shards as usize;
        let total_parity = header.total_parity_shards as usize;
        let total_shards = total_data + total_parity;
        let packet_idx = header.packet_index as usize;

        if packet_idx >= total_shards || total_data == 0 {
            return Ok(None);
        }
        assert(!ignored(m, header));

        let mut pending = self.open_pending(&header, payload.len());
        let ghost p0 = pending.model();
        Self::store_shard(&mut pending, &header, payload);
        let ghost p1 = pending.model();
        assert(p1 == add_shard(p0, header, payload@));
        assert(p1 == joined_entry(m, header, payload@));

        let received = pending.received_count;
        let needed = pending.total_data_shards;
        self.insert_pending(frame_index, pending);
        assert(m.pending.remove(frame_index).insert(frame_index, p1) =~= m.pending.insert(
            frame_index,
            p1,
        ));
        assert(m.pending.insert(frame_index, p1).remove(frame_index) =~= m.pending.remove(
            frame_index,
        ));

        if received >= needed {
            assert(decode_step(m, packet_bytes@) == complete_step(m, frame_index, p1));
            let frame = self.reconstruct_frame(frame_index)?;
            self.last_emitted_frame = Some(frame_index);
            let limit = self.max_active_frames;
            self.drop_older_frames(limit, frame_index);
            return Ok(Some(frame));
        }
        assert(decode_step(m, packet_bytes@) == (
            incomplete_step(m, frame_index, p1),
            Ok::<Option<FrameModel>, FecError>(None),
        ));
        let limit = self.max_active_frames * 2;
        self.drop_oldest_frames(limit);
        Ok(None)
    }

    /// Number of frames pending.
    pub fn pending_count(&self) -> (n: usize)
        ensures
            n == self.model().pending.dom().len(),
    {
        broadcast use vstd::std_specs::btree::group_btree_axioms;

        proof {
            lemma_frame_keys_ordered();
            assert(self.model().pending.dom() =~= self.pending_frames@.dom());
        }
        self.pending_frames.len()
    }

    /// Whether `process_packet` can take `packet_bytes`: a packet that joins
    /// a pending frame must name a slot that the frame's first packet sized.
    /// (A packet that does not fit would index past the frame's slots.)
    pub fn accepts(&self, packet_bytes: &[u8]) -> (r: bool)
        requires
            decoder_wf(self.model()),
        ensures
            r == packet_fits(self.model(), packet_bytes@),
    {
        broadcast use vstd::std_specs::btree::group_btree_axioms;

        let header = match VideoRtpHeader::deserialize(packet_bytes) {
            Some(h) => h,
            None => return true,
        };
        let frame_index = header.frame_index;
        if let Some(last_emitted) = self.last_emitted_frame {
            if frame_index <= last_emitted && last_emitted - frame_index < 500 {
                return true;
            }
        }
        let total_data = header.total_data_shards as usize;
        let total_shards = total_data + header.total_parity_shards as usize;
        let packet_idx = header.packet_index as usize;
        if packet_idx >= total_shards || total_data == 0 {
            return true;
        }
        match self.pending_frames.get(&frame_index) {
            Some(p) => {
                assert(self.model().pending[frame_index] == p.model());
                packet_idx < p.shards.len() && (packet_idx >= total_data || packet_idx
                    < p.payload_sizes.len())
            },
            None => true,
        }
    }

    /// Takes the entry of the frame of `header` out of the pending set, or
    /// opens a new one sized by `header` with shards of `shard_size` bytes.
    fn open_pending(&mut self, header: &VideoRtpHeader, shard_size: usize) -> (p: PendingFrame)
        requires
            decoder_wf(old(self).model()),
            header.total_data_shards > 0,
        ensures
            decoder_wf(final(self).model()),
            final(self).model() == (DecoderModel {
                pending: old(self).model().pending.remove(header.frame_index),
                max_active: old(self).model().max_active,
                last_emitted: old(self).model().last_emitted,
            }),
            p.model() == if old(self).model().pending.contains_key(header.frame_index) {
                old(self).model().pending[header.frame_index]
            } else {
                new_pending(*header, shard_size as nat)
            },
            pending_wf(p.model()),
    {
        broadcast use vstd::std_specs::btree::group_btree_axioms;

        proof {
            lemma_frame_keys_ordered();
        }
        let ghost m = self.model();
        let frame_index = header.frame_index;
        let total_data = header.total_data_shards as usize;
        let total_parity = header.total_parity_shards as usize;
        let total_shards = total_data + total_parity;
        let pending = match self.pending_frames.remove(&frame_index) {
            Some(p) => {
                assert(m.pending.contains_key(frame_index));
                p
            },
            None => {
                let payload_sizes: Vec<usize> = vec![0usize; total_data];
                let mut shards: Vec<Option<Vec<u8>>> = Vec::with_capacity(total_shards);
                let mut k: usize = 0;
                while k < total_shards
                    invariant
                        0 <= k <= total_shards,
                        shards@.len() == k,
                        forall|j: int| 0 <= j < k ==> #[trigger] shards@[j] is None,
                    decreases total_shards - k,
                {
                    shards.push(None);
                    k += 1;
                }
                let p = PendingFrame {
                    total_data_shards: total_data,
                    total_parity_shards: total_parity,
                    shard_size,
                    codec: header.codec,
                    payload_sizes,
                    shards,
                    received_count: 0,
                };
                assert(payload_sizes@ =~= Seq::new(total_data as nat, |k: int| 0usize));
                assert(opt_shard_views(shards@) =~= Seq::new(
                    total_shards as nat,
                    |k: int| None::<Seq<u8>>,
                ));
                assert(p.model() =~= new_pending(*header, shard_size as nat));
                proof {
                    lemma_count_present_none(p.model().shards, p.model().shards.len() as int);
                    reveal(pending_wf);
                }
                p
            },
        };
        assert(self.model().pending =~= m.pending.remove(frame_index));
        pending
    }

    /// Keeps the shard of packet `header` (cut or zero-padded to the entry's
    /// shard size) unless its slot is already filled.
    fn store_shard(pending: &mut PendingFrame, header: &VideoRtpHeader, payload: &[u8])
        requires
            pending_wf(old(pending).model()),
            header.packet_index < old(pending).model().shards.len(),
            header.packet_index < header.total_data_shards ==> header.packet_index < old(
                pending,
            ).model().payload_sizes.len(),
        ensures
            final(pending).model() == add_shard(old(pending).model(), *header, payload@),
            pending_wf(final(pending).model()),
    {
        reveal(pending_wf);
        let ghost p0 = pending.model();
        let packet_idx = header.packet_index as usize;
        let total_data = header.total_data_shards as usize;
        assert(p0.shards[packet_idx as int] is Some <==> pending.shards@[packet_idx as int] is Some);
        if pending.shards[packet_idx].is_none() {
            let mut shard_vec: Vec<u8> = vec![0u8; pending.shard_size];
            let copy_len = if payload.len() < pending.shard_size {
                payload.len()
            } else {
                pending.shard_size
            };
            let mut k: usize = 0;
            while k < copy_len
                invariant
                    0 <= k <= copy_len,
                    copy_len <= payload@.len(),
                    copy_len <= shard_vec@.len(),
                    shard_vec@.len() == p0.shard_size,
                    copy_len == if payload@.len() < p0.shard_size {
                        payload@.len()
                    } else {
                        p0.shard_size as nat
                    },
                    forall|j: int| 0 <= j < k ==> #[trigger] shard_vec@[j] == payload@[j],
                    forall|j: int| k <= j < shard_vec@.len() ==> #[trigger] shard_vec@[j] == 0u8,
                decreases copy_len - k,
            {
                shard_vec[k] = payload[k];
                k += 1;
            }
            assert(shard_vec@ =~= stored_shard(payload@, p0.shard_size as nat));
            if packet_idx < total_data {
                pending.payload_sizes[packet_idx] = header.payload_size as usize;
            }
            pending.shards[packet_idx] = Some(shard_vec);
            proof {
                lemma_count_present_fill(
                    p0.shards,
                    packet_idx as int,
                    stored_shard(payload@, p0.shard_size as nat),
                    p0.shards.len() as int,
                );
                assert(count_present(p0.shards, p0.shards.len() as int) < p0.shards.len()) by {
                    lemma_count_present_le(p0.shards, p0.shards.len() as int);
                    lemma_count_present_lt(p0.shards, packet_idx as int, p0.shards.len() as int);
                }
            }
            assert(pending.received_count == p0.received);
            assert(p0.shards.len() == pending.shards@.len());
            let slots = pending.shards.len();
            assert(pending.received_count < slots);
            pending.received_count += 1;
            assert(opt_shard_views(pending.shards@) =~= p0.shards.update(
                packet_idx as int,
                Some(stored_shard(payload@, p0.shard_size as nat)),
            ));
            assert(pending.model() =~= add_shard(p0, *header, payload@));
        }
    }

    /// Stores the pending entry `p` of frame `k`.
    fn insert_pending(&mut self, k: u32, p: PendingFrame)
        requires
            decoder_wf(old(self).model()),
            pending_wf(p.model()),
        ensures
            decoder_wf(final(self).model()),
            final(self).model() == (DecoderModel {
                pending: old(self).model().pending.insert(k, p.model()),
                max_active: old(self).model().max_active,
                last_emitted: old(self).model().last_emitted,
            }),
    {
        broadcast use vstd::std_specs::btree::group_btree_axioms;

        proof {
            lemma_frame_keys_ordered();
        }
        let ghost before = self.model().pending;
        let ghost pm = p.model();
        self.pending_frames.insert(k, p);
        assert(self.model().pending =~= before.insert(k, pm));
    }

    /// Removes the pending entry of frame `k`.
    fn remove_pending(&mut self, k: u32)
        requires
            decoder_wf(old(self).model()),
        ensures
            decoder_wf(final(self).model()),
            final(self).model() == (DecoderModel {
                pending: old(self).model().pending.remove(k),
                max_active: old(self).model().max_active,
                last_emitted: old(self).model().last_emitted,
            }),
            final(self).model().pending.dom() == final(self).pending_frames@.dom(),
            final(self).pending_frames@.dom() == old(self).pending_frames@.dom().remove(k),
    {
        broadcast use vstd::std_specs::btree::group_btree_axioms;

        proof {
            lemma_frame_keys_ordered();
        }
        let ghost before = self.model().pending;
        self.pending_frames.remove(&k);
        assert(self.model().pending =~= before.remove(k));
    }

    /// Drops the oldest pending frames, not newer than `bound`, while more
    /// than `limit` are pending.
    fn drop_older_frames(&mut self, limit: usize, bound: u32)
        requires
            decoder_wf(old(self).model()),
        ensures
            decoder_wf(final(self).model()),
            final(self).model() == (DecoderModel {
                pending: evict_older(old(self).model().pending, limit as nat, bound),
                max_active: old(self).model().max_active,
                last_emitted: old(self).model().last_emitted,
            }),
    {
        broadcast use vstd::std_specs::btree::group_btree_axioms;

        proof {
            lemma_frame_keys_ordered();
        }
        let ghost m = self.model();
        let ghost target = evict_older(m.pending, limit as nat, bound);
        while self.pending_frames.len() > limit
            invariant
                decoder_wf(self.model()),
                self.max_active_frames == m.max_active,
                self.last_emitted_frame == m.last_emitted,
                evict_older(self.model().pending, limit as nat, bound) == target,
                self.model().pending.dom() == self.pending_frames@.dom(),
            ensures
                decoder_wf(self.model()),
                self.max_active_frames == m.max_active,
                self.last_emitted_frame == m.last_emitted,
                self.model().pending == target,
            decreases self.pending_frames@.dom().len(),
        {
            let oldest = oldest_key(&self.pending_frames);
            let ghost before = self.model().pending;
            proof {
                lemma_model_dom(self);
                lemma_evict_unfold(before, limit as nat, bound, oldest);
            }
            if oldest <= bound {
                self.remove_pending(oldest);
            } else {
                break;
            }
        }
    }

    /// Drops the oldest pending frames while more than `limit` are pending.
    fn drop_oldest_frames(&mut self, limit: usize)
        requires
            decoder_wf(old(self).model()),
        ensures
            decoder_wf(final(self).model()),
            final(self).model() == (DecoderModel {
                pending: evict_older(old(self).model().pending, limit as nat, u32::MAX),
                max_active: old(self).model().max_active,
                last_emitted: old(self).model().last_emitted,
            }),
    {
        broadcast use vstd::std_specs::btree::group_btree_axioms;

        proof {
            lemma_frame_keys_ordered();
        }
        let ghost m = self.model();
        let ghost target = evict_older(m.pending, limit as nat, u32::MAX);
        while self.pending_frames.len() > limit
            invariant
                decoder_wf(self.model()),
                self.max_active_frames == m.max_active,
                self.last_emitted_frame == m.last_emitted,
                evict_older(self.model().pending, limit as nat, u32::MAX) == target,
                self.model().pending.dom() == self.pending_frames@.dom(),
            decreases self.pending_frames@.dom().len(),
        {
            let oldest = oldest_key(&self.pending_frames);
            let ghost before = self.model().pending;
            proof {
                lemma_model_dom(self);
                lemma_evict_unfold(before, limit as nat, u32::MAX, oldest);
            }
            self.remove_pending(oldest);
        }
    }

    /// Takes frame `frame_index` out of the pending set and rebuilds it:
    /// missing data shards come from parity when needed, then the data shards
    /// are joined, each cut to its announced payload size.
    fn reconstruct_frame(&mut self, frame_index: u32) -> (r: Result<DecodedFrame, FecError>)
        requires
            decoder_wf(old(self).model()),
        ensures
            decoder_wf(final(self).model()),
            final(self).model() == (DecoderModel {
                pending: old(self).model().pending.remove(frame_index),
                max_active: old(self).model().max_active,
                last_emitted: old(self).model().last_emitted,
            }),
            old(self).model().pending.contains_key(frame_index) ==> frame_result_view(r) == frame_of(
                frame_index,
                old(self).model().pending[frame_index],
            ),
            !old(self).model().pending.contains_key(frame_index) ==> r == Err::<
                DecodedFrame,
                FecError,
            >(FecError::FrameMissing),
    {
        broadcast use vstd::std_specs::btree::group_btree_axioms;

        let ghost old_model = self.model();
        proof {
            lemma_frame_keys_ordered();
        }
        let mut pending = match self.pending_frames.remove(&frame_index) {
            Some(p) => p,
            None => {
                assert(self.model().pending =~= old_model.pending.remove(frame_index));
                return Err(FecError::FrameMissing);
            },
        };
        assert(self.model().pending =~= old_model.pending.remove(frame_index));
        let ghost p = pending.model();
        assert(old_model.pending.contains_key(frame_index));
        assert(p == old_model.pending[frame_index]);
        assert(pending_wf(p));
        reveal(pending_wf);

        let data_shards_len = pending.total_data_shards;
        let parity_shards_len = pending.total_parity_shards;
        let shard_size = pending.shard_size;

        let mut all_data_present = true;
        let mut i: usize = 0;
        while i < data_shards_len
            invariant
                0 <= i <= data_shards_len,
                data_shards_len == p.total_data,
                pending.model() == p,
                p.shards.len() == p.total_data + p.total_parity,
                all_data_present <==> forall|k: int| 0 <= k < i ==> #[trigger] p.shards[k] is Some,
            decreases data_shards_len - i,
        {
            assert(p.shards[i as int] is Some <==> pending.shards@[i as int] is Some);
            if pending.shards[i].is_none() {
                all_data_present = false;
            }
            i += 1;
        }
        assert(all_data_present == data_complete(p));

        if !all_data_present {
            let slots = pending.shards.len();
            assert(data_shards_len + parity_shards_len == slots);
            let rs = match rs_new(data_shards_len, parity_shards_len) {
                Ok(rs) => rs,
                Err(_) => {
                    return Err(FecError::Reconstruct);
                },
            };
            match rs_reconstruct(&rs, &mut pending.shards) {
                Ok(()) => {},
                Err(_) => {
                    return Err(FecError::Reconstruct);
                },
            }
            proof {
                lemma_count_present_pos(p.shards, p.shards.len() as int);
                let k0 = choose|k: int| 0 <= k < p.shards.len() && p.shards[k] is Some;
                let n = choose|n: nat| present_of_len(p.shards, n);
                assert(p.shards[k0] is Some);
                assert(n == shard_size);
                assert(opt_shard_views(pending.shards@) =~= rebuild(p)->Ok_0);
            }
        }
        let ghost sh = opt_shard_views(pending.shards@);
        assert(rebuild(p) == Ok::<Seq<Option<Seq<u8>>>, FecError>(sh));
        assert(forall|k: int|
            0 <= k < data_shards_len ==> #[trigger] sh[k] is Some && sh[k].unwrap().len()
                == shard_size);

        let mut complete_data: Vec<u8> = Vec::new();
        let mut i: usize = 0;
        while i < data_shards_len
            invariant
                0 <= i <= data_shards_len,
                data_shards_len == p.total_data,
                shard_size == p.shard_size,
                pending.payload_sizes@ == p.payload_sizes,
                p.payload_sizes.len() == data_shards_len,
                opt_shard_views(pending.shards@) == sh,
                pending.shards@.len() == sh.len(),
                sh.len() >= data_shards_len,
                forall|k: int|
                    0 <= k < data_shards_len ==> #[trigger] sh[k] is Some && sh[k].unwrap().len()
                        == shard_size,
                complete_data@ == assemble(
                    sh,
                    p.payload_sizes,
                    data_shards_len as nat,
                    shard_size as nat,
                    i as nat,
                ),
            decreases data_shards_len - i,
        {
            assert(sh[i as int] is Some);
            match &pending.shards[i] {
                Some(shard) => {
                    assert(shard@ == sh[i as int].unwrap());
                    let psize = pending.payload_sizes[i];
                    let take = if psize > 0 && psize <= shard.len() {
                        psize
                    } else if i == data_shards_len - 1 {
                        shard.len()
                    } else {
                        shard_size
                    };
                    complete_data.extend_from_slice(&shard.as_slice()[0..take]);
                },
                None => {},
            }
            assert(complete_data@ =~= assemble(
                sh,
                p.payload_sizes,
                data_shards_len as nat,
                shard_size as nat,
                (i + 1) as nat,
            ));
            i += 1;
        }
        Ok(DecodedFrame { frame_index, codec: pending.codec, data: complete_data })
    }
}

/// Some shard is present when the count of present shards is positive.
proof fn lemma_count_present_pos(s: Seq<Option<Seq<u8>>>, n: int)
    requires
        0 <= n <= s.len(),
        count_present(s, n) > 0,
    ensures
        exists|k: int| 0 <= k < n && #[trigger] s[k] is Some,
    decreases n,
{
    if n > 0 && !(s[n - 1] is Some) {
        lemma_count_present_pos(s, n - 1);
    }
}

/// No shard is present in a sequence of empty slots.
pub proof fn lemma_count_present_none(s: Seq<Option<Seq<u8>>>, n: int)
    requires
        0 <= n <= s.len(),
        forall|k: int| 0 <= k < s.len() ==> #[trigger] s[k] is None,
    ensures
        count_present(s, n) == 0,
    decreases n,
{
    if n > 0 {
        lemma_count_present_none(s, n - 1);
    }
}

/// Filling an empty slot adds one present shard.
pub proof fn lemma_count_present_fill(s: Seq<Option<Seq<u8>>>, idx: int, v: Seq<u8>, n: int)
    requires
        0 <= idx < s.len(),
        0 <= n <= s.len(),
        s[idx] is None,
    ensures
        count_present(s.update(idx, Some(v)), n) == count_present(s, n) + if idx < n {
            1nat
        } else {
            0nat
        },
    decreases n,
{
    if n > 0 {
        lemma_count_present_fill(s, idx, v, n - 1);
    }
}

/// The model's entries are those of the map.
proof fn lemma_model_dom(d: &FecDecoder)
    ensures
        d.model().pending.dom() == d.pending_frames@.dom(),
        d.pending_frames@.dom().finite(),
{
    broadcast use vstd::std_specs::btree::group_btree_axioms;

    assert(d.model().pending.dom() =~= d.pending_frames@.dom());
}

/// One round of eviction: with more than `limit` entries, the oldest one `k`
/// goes if it is not newer than `bound`; otherwise eviction stops.
proof fn lemma_evict_unfold(m: Map<u32, PendingModel>, limit: nat, bound: u32, k: u32)
    requires
        m.dom().finite(),
        m.dom().len() > limit,
        m.dom().contains(k),
        k == min_key(m.dom()),
    ensures
        k <= bound ==> evict_older(m, limit, bound) == evict_older(m.remove(k), limit, bound),
        k > bound ==> evict_older(m, limit, bound) == m,
{
}

/// At most `n` shards are present among the first `n`.
proof fn lemma_count_present_le(s: Seq<Option<Seq<u8>>>, n: int)
    requires
        0 <= n <= s.len(),
    ensures
        count_present(s, n) <= n,
    decreases n,
{
    if n > 0 {
        lemma_count_present_le(s, n - 1);
    }
}

/// An empty slot among the first `n` leaves fewer than `n` present.
proof fn lemma_count_present_lt(s: Seq<Option<Seq<u8>>>, idx: int, n: int)
    requires
        0 <= idx < n <= s.len(),
        s[idx] is None,
    ensures
        count_present(s, n) < n,
    decreases n,
{
    lemma_count_present_le(s, n - 1);
    if idx < n - 1 {
        lemma_count_present_lt(s, idx, n - 1);
    }
}

/// What `reconstruct_frame` returns, as the contracts see it.
pub open spec fn frame_result_view(r: Result<DecodedFrame, FecError>) -> Result<FrameModel, FecError> {
    match r {
        Ok(f) => Ok(frame_view(f)),
        Err(e) => Err(e),
    }
}

} // verus!
