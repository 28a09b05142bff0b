//! What the FEC layer promises end to end: the packets of an encoded frame,
//! delivered in any order with at most the parity count of them lost, make a
//! fresh decoder hand the frame back unchanged.

use crate::erasure::{codeword, count_present, present_of_len, recoverable, rs_rebuilt};
use crate::fec::{
    add_shard, assemble, data_shard, data_shard_count, decode_step, encoded_packets,
    encoding_facts, encodable, evict_older, frame_data_shards, frame_of, ignored,
    lemma_count_present_fill, lemma_count_present_none, new_pending, packet_fits,
    clamp_percentage, packet_flags, packet_header, parity_shard_count, rebuild, shard_end, stored_shard, take_len, DecoderModel,
    FecError, FrameModel, PendingModel,
};
use crate::rtp::{header_bytes, lemma_header_roundtrip, parse_header, RTP_PAYLOAD_MAX_SIZE};
use vstd::prelude::*;

verus! {

/// The model of `FecDecoder::new(max_active)` (for `max_active >= 4`).
pub open spec fn fresh_decoder(max_active: usize) -> DecoderModel {
    DecoderModel { pending: Map::empty(), max_active, last_emitted: None }
}

/// The decoder after `packets`, one after the other, and what each gave.
pub open spec fn decoder_run(m: DecoderModel, packets: Seq<Seq<u8>>) -> (
    DecoderModel,
    Seq<Result<Option<FrameModel>, FecError>>,
)
    decreases packets.len(),
{
    if packets.len() == 0 {
        (m, seq![])
    } else {
        let (m1, out) = decoder_run(m, packets.drop_last());
        let (m2, r) = decode_step(m1, packets.last());
        (m2, out.push(r))
    }
}

/// Payload bytes of data shard `i` of a frame of `len` bytes.
pub open spec fn payload_size_of(len: nat, i: nat) -> nat {
    (shard_end(len, i) - i * RTP_PAYLOAD_MAX_SIZE) as nat
}

/// Positions of the shards of one frame: data shard `i` covers
/// `i * 1380 .. shard_end(len, i)`, all full but the last.
proof fn lemma_shard_geometry(len: nat, i: nat)
    requires
        len > 0,
        i < data_shard_count(len),
    ensures
        i * 1380 < len,
        i + 1 < data_shard_count(len) ==> (i + 1) * 1380 <= len,
        i + 1 == data_shard_count(len) ==> len <= (i + 1) * 1380,
        i + 1 == data_shard_count(len) && len % 1380 == 0 ==> len == (i + 1) * 1380,
        0 < payload_size_of(len, i) <= 1380,
        i + 1 < data_shard_count(len) ==> payload_size_of(len, i) == 1380,
{
    let d = data_shard_count(len);
    assert(d == (len + 1379) / 1380);
    assert(i * 1380 < len) by (nonlinear_arith)
        requires
            i < d,
            d == (len + 1379) / 1380,
            len > 0,
    ;
    assert(i + 1 < d ==> (i + 1) * 1380 <= len) by (nonlinear_arith)
        requires
            d == (len + 1379) / 1380,
    ;
    assert(i + 1 == d ==> len <= (i + 1) * 1380) by (nonlinear_arith)
        requires
            d == (len + 1379) / 1380,
    ;
    assert(i + 1 == d && len % 1380 == 0 ==> len == (i + 1) * 1380) by (nonlinear_arith)
        requires
            d == (len + 1379) / 1380,
    ;
}

/// The data shards, cut to the sizes the decoder uses, join back into the
/// frame: the first `n` give the frame up to the end of shard `n - 1`.
proof fn lemma_assemble_prefix(
    frame: Seq<u8>,
    sh: Seq<Option<Seq<u8>>>,
    sizes: Seq<usize>,
    n: nat,
)
    requires
        frame.len() > 0,
        n <= data_shard_count(frame.len()),
        sh.len() >= data_shard_count(frame.len()),
        sizes.len() == data_shard_count(frame.len()),
        forall|i: int|
            0 <= i < data_shard_count(frame.len()) ==> #[trigger] sh[i] == Some(
                data_shard(frame, i as nat),
            ),
        forall|i: int|
            0 <= i < data_shard_count(frame.len()) ==> #[trigger] sizes[i] == 0 || sizes[i]
                == payload_size_of(frame.len(), i as nat),
        sizes[data_shard_count(frame.len()) - 1] == payload_size_of(
            frame.len(),
            (data_shard_count(frame.len()) - 1) as nat,
        ) || frame.len() % 1380 == 0,
    ensures
        assemble(sh, sizes, data_shard_count(frame.len()), 1380, n) == frame.subrange(
            0,
            if n == 0 {
                0
            } else {
                shard_end(frame.len(), (n - 1) as nat) as int
            },
        ),
    decreases n,
{
    let len = frame.len();
    let d = data_shard_count(len);
    if n > 0 {
        let i = (n - 1) as nat;
        lemma_assemble_prefix(frame, sh, sizes, i);
        lemma_shard_geometry(len, i);
        if i > 0 {
            lemma_shard_geometry(len, (i - 1) as nat);
        }
        let start = i * 1380;
        let end = shard_end(len, i);
        let s = data_shard(frame, i);
        assert(sh[i as int] == Some(s));
        assert(s.len() == 1380);
        let t = take_len(s.len(), sizes[i as int], i, d, 1380);
        if i + 1 == d && len % 1380 == 0 {
            assert(len == (i + 1) * 1380);
        }
        assert(t == end - start);
        assert(s.subrange(0, t as int) =~= frame.subrange(start as int, end as int));
        assert(frame.subrange(0, start as int) + frame.subrange(start as int, end as int)
            =~= frame.subrange(0, end as int));
    }
}

/// The slots a frame's entry holds after its packets `kept[0..j]` arrived.
pub open spec fn slots_after(cw: Seq<Seq<u8>>, kept: Seq<int>, j: int) -> Seq<Option<Seq<u8>>> {
    Seq::new(
        cw.len(),
        |i: int|
            if kept.take(j).contains(i) {
                Some(cw[i])
            } else {
                None
            },
    )
}

/// The payload sizes an entry records after its packets `kept[0..j]` arrived.
pub open spec fn sizes_after(len: nat, kept: Seq<int>, j: int) -> Seq<usize> {
    Seq::new(
        data_shard_count(len),
        |i: int|
            if kept.take(j).contains(i) {
                payload_size_of(len, i as nat) as usize
            } else {
                0usize
            },
    )
}

/// The entry of frame `frame` after its packets `kept[0..j]` arrived.
pub open spec fn entry_after(frame: Seq<u8>, codec: u8, pct: nat, kept: Seq<int>, j: int) -> PendingModel {
    let d = data_shard_count(frame.len());
    let p = parity_shard_count(d, pct);
    PendingModel {
        total_data: d as usize,
        total_parity: p as usize,
        shard_size: 1380,
        codec,
        payload_sizes: sizes_after(frame.len(), kept, j),
        shards: slots_after(codeword(frame_data_shards(frame), p), kept, j),
        received: j as usize,
    }
}

/// The decoder after the packets `kept[0..j]` of frame `frame_index`.
pub open spec fn model_after(
    frame_index: u32,
    frame: Seq<u8>,
    codec: u8,
    pct: nat,
    max_active: usize,
    kept: Seq<int>,
    j: int,
) -> DecoderModel {
    DecoderModel {
        pending: if j == 0 {
            Map::empty()
        } else {
            Map::empty().insert(frame_index, entry_after(frame, codec, pct, kept, j))
        },
        max_active,
        last_emitted: None,
    }
}

/// The packets that arrive: those of the encoding at the positions `kept`.
pub open spec fn delivered(packets: Seq<Seq<u8>>, kept: Seq<int>) -> Seq<Seq<u8>> {
    Seq::new(kept.len(), |j: int| packets[kept[j]])
}

/// Hypotheses of the round trip: a frame that `encode_frame` encoded, and the
/// first `d` packets that arrive, distinct and in any order.
pub open spec fn roundtrip_setting(frame: Seq<u8>, pct: nat, max_active: usize, kept: Seq<int>) -> bool {
    let d = data_shard_count(frame.len());
    let p = parity_shard_count(d, pct);
    &&& frame.len() > 0
    &&& frame.len() + 1380 <= usize::MAX
    &&& 5 <= pct <= 50
    &&& encodable(frame.len(), pct)
    &&& encoding_facts(frame, pct)
    &&& max_active >= 4
    &&& max_active <= usize::MAX / 2
    &&& kept.len() == d
    &&& forall|j: int| 0 <= j < kept.len() ==> 0 <= #[trigger] kept[j] < d + p
    &&& forall|i: int, j: int| 0 <= i < j < kept.len() ==> #[trigger] kept[i] != #[trigger] kept[j]
    &&& kept.contains(d - 1) || frame.len() % 1380 == 0
}

/// `kept[0..j+1]` holds what `kept[0..j]` holds and `kept[j]`, which
/// `kept[0..j]` does not hold when `kept` has no repeats.
proof fn lemma_kept_take(kept: Seq<int>, j: int)
    requires
        0 <= j < kept.len(),
        forall|a: int, b: int| 0 <= a < b < kept.len() ==> #[trigger] kept[a] != #[trigger] kept[b],
    ensures
        forall|i: int| #[trigger] kept.take(j + 1).contains(i) <==> (kept.take(j).contains(i) || i == kept[j]),
        !kept.take(j).contains(kept[j]),
{
    let t0 = kept.take(j);
    let t1 = kept.take(j + 1);
    assert(t1 =~= t0.push(kept[j]));
    assert forall|i: int| #[trigger] t1.contains(i) <==> (t0.contains(i) || i == kept[j]) by {
        if t1.contains(i) {
            let a = choose|a: int| 0 <= a < t1.len() && t1[a] == i;
            if a < j {
                assert(t0[a] == i);
            }
        }
        if t0.contains(i) {
            let a = choose|a: int| 0 <= a < t0.len() && t0[a] == i;
            assert(t1[a] == i);
        }
        if i == kept[j] {
            assert(t1[j] == i);
        }
    }
    if kept.take(j).contains(kept[j]) {
        let a = choose|a: int| 0 <= a < j && kept.take(j)[a] == kept[j];
        assert(kept[a] != kept[j]);
    }
}

/// After `j` packets of distinct positions, `j` slots are filled.
proof fn lemma_slots_count(cw: Seq<Seq<u8>>, kept: Seq<int>, j: int)
    requires
        0 <= j <= kept.len(),
        forall|a: int| 0 <= a < kept.len() ==> 0 <= #[trigger] kept[a] < cw.len(),
        forall|a: int, b: int| 0 <= a < b < kept.len() ==> #[trigger] kept[a] != #[trigger] kept[b],
    ensures
        count_present(slots_after(cw, kept, j), cw.len() as int) == j,
    decreases j,
{
    if j == 0 {
        assert forall|k: int| 0 <= k < cw.len() implies #[trigger] slots_after(cw, kept, 0)[k] is None by {
            assert(!kept.take(0).contains(k));
        }
        lemma_count_present_none(slots_after(cw, kept, 0), cw.len() as int);
    } else {
        lemma_slots_count(cw, kept, j - 1);
        lemma_kept_take(kept, j - 1);
        let before = slots_after(cw, kept, j - 1);
        let idx = kept[j - 1];
        assert forall|k: int| 0 <= k < cw.len() implies #[trigger] slots_after(cw, kept, j)[k]
            == before.update(idx, Some(cw[idx]))[k] by {
            assert(kept.take(j) == kept.take((j - 1) + 1));
        }
        assert(slots_after(cw, kept, j) =~= before.update(idx, Some(cw[idx])));
        lemma_count_present_fill(before, idx, cw[idx], cw.len() as int);
    }
}

/// Packet `kept[j]` of the round trip: a header for the frame followed by its
/// shard of the encoded set.
proof fn lemma_step_packet(
    frame_index: u32,
    frame: Seq<u8>,
    codec: u8,
    pct: nat,
    max_active: usize,
    kept: Seq<int>,
    j: int,
)
    requires
        roundtrip_setting(frame, pct, max_active, kept),
        0 <= j < kept.len(),
    ensures
        ({
            let d = data_shard_count(frame.len());
            let p = parity_shard_count(d, pct);
            let cw = codeword(frame_data_shards(frame), p);
            let idx = kept[j];
            let h = packet_header(frame_index, codec, frame.len(), d, p, idx as nat);
            let pk = encoded_packets(frame_index, codec, frame, pct)[idx];
            &&& parse_header(pk) == Some(h)
            &&& h.packet_index == idx
            &&& h.total_data_shards == d
            &&& h.total_parity_shards == p
            &&& h.frame_index == frame_index
            &&& h.codec == codec
            &&& idx < d ==> h.payload_size == payload_size_of(frame.len(), idx as nat)
            &&& pk.subrange(16, pk.len() as int) == cw[idx]
            &&& cw[idx].len() == 1380
        }),
{
    let len = frame.len();
    let d = data_shard_count(len);
    let p = parity_shard_count(d, pct);
    let cw = codeword(frame_data_shards(frame), p);
    let idx = kept[j];
    let h = packet_header(frame_index, codec, len, d, p, idx as nat);
    let pk = encoded_packets(frame_index, codec, frame, pct)[idx];
    assert(pk == header_bytes(h) + cw[idx]);
    lemma_header_roundtrip(h, cw[idx]);
    assert(header_bytes(h).len() == 16);
    assert(pk.subrange(16, pk.len() as int) =~= cw[idx]);
    if idx < d {
        lemma_shard_geometry(len, idx as nat);
    }
}

/// The entry that packet `kept[j]` leaves is the entry after `kept[0..j+1]`.
proof fn lemma_step_entry(
    frame_index: u32,
    frame: Seq<u8>,
    codec: u8,
    pct: nat,
    max_active: usize,
    kept: Seq<int>,
    j: int,
    h: crate::rtp::VideoRtpHeader,
    payload: Seq<u8>,
)
    requires
        roundtrip_setting(frame, pct, max_active, kept),
        0 <= j < kept.len(),
        ({
            let d = data_shard_count(frame.len());
            let p = parity_shard_count(d, pct);
            let cw = codeword(frame_data_shards(frame), p);
            let idx = kept[j];
            &&& h.packet_index == idx
            &&& h.total_data_shards == d
            &&& h.total_parity_shards == p
            &&& h.frame_index == frame_index
            &&& h.codec == codec
            &&& idx < d ==> h.payload_size == payload_size_of(frame.len(), idx as nat)
            &&& payload == cw[idx]
            &&& cw[idx].len() == 1380
        }),
    ensures
        ({
            let m = model_after(frame_index, frame, codec, pct, max_active, kept, j);
            let p0 = if m.pending.contains_key(frame_index) {
                m.pending[frame_index]
            } else {
                new_pending(h, payload.len())
            };
            &&& p0.shards.len() == data_shard_count(frame.len()) + parity_shard_count(
                data_shard_count(frame.len()),
                pct,
            )
            &&& p0.payload_sizes.len() == data_shard_count(frame.len())
            &&& add_shard(p0, h, payload) == entry_after(frame, codec, pct, kept, j + 1)
        }),
{
    let len = frame.len();
    let d = data_shard_count(len);
    let p = parity_shard_count(d, pct);
    let cw = codeword(frame_data_shards(frame), p);
    let idx = kept[j];
    let m = model_after(frame_index, frame, codec, pct, max_active, kept, j);
    lemma_kept_take(kept, j);
    let e0 = entry_after(frame, codec, pct, kept, j);
    let e1 = entry_after(frame, codec, pct, kept, j + 1);
    let p0 = if m.pending.contains_key(frame_index) {
        m.pending[frame_index]
    } else {
        new_pending(h, payload.len())
    };
    if j == 0 {
        assert(sizes_after(len, kept, 0) =~= Seq::new(d, |k: int| 0usize));
        assert(slots_after(cw, kept, 0) =~= Seq::new(d + p, |k: int| None::<Seq<u8>>));
        assert(p0 =~= e0);
    } else {
        assert(p0 == e0);
    }
    assert(e0.shards[idx] is None);
    assert(stored_shard(payload, 1380) =~= cw[idx]);
    let p1 = add_shard(p0, h, payload);
    assert(p1.payload_sizes =~= e1.payload_sizes);
    assert(p1.shards =~= e1.shards);
}

/// Once all `d` packets are in, the entry gives the frame back.
#[verifier::rlimit(40)]
proof fn lemma_complete_frame(
    frame_index: u32,
    frame: Seq<u8>,
    codec: u8,
    pct: nat,
    max_active: usize,
    kept: Seq<int>,
)
    requires
        roundtrip_setting(frame, pct, max_active, kept),
    ensures
        frame_of(frame_index, entry_after(frame, codec, pct, kept, kept.len() as int)) == Ok::<
            FrameModel,
            FecError,
        >((frame_index, codec, frame)),
{
    let len = frame.len();
    let d = data_shard_count(len);
    let p = parity_shard_count(d, pct);
    let data = frame_data_shards(frame);
    let cw = codeword(data, p);
    let e1 = entry_after(frame, codec, pct, kept, d as int);
    let sh = e1.shards;
    assert(kept.take(d as int) =~= kept);
    assert forall|i: int| 0 <= i < d implies #[trigger] cw[i] == data_shard(frame, i as nat) by {
        assert(cw[i] == data[i]);
    }
    let sizes = e1.payload_sizes;
    assert forall|i: int| 0 <= i < d implies #[trigger] sizes[i] == 0 || sizes[i]
        == payload_size_of(len, i as nat) by {
        if kept.contains(i) {
            lemma_shard_geometry(len, i as nat);
        }
    }
    lemma_shard_geometry(len, (d - 1) as nat);
    if crate::fec::data_complete(e1) {
        assert(rebuild(e1) == Ok::<Seq<Option<Seq<u8>>>, FecError>(sh));
        assert forall|i: int| 0 <= i < d implies #[trigger] sh[i] == Some(
            data_shard(frame, i as nat),
        ) by {
            assert(sh[i] is Some);
        }
        lemma_assemble_prefix(frame, sh, sizes, d);
    } else {
        lemma_slots_count(cw, kept, d as int);
        assert(present_of_len(sh, 1380));
        assert(rs_rebuilt(sh, d, p) == cw);
        let full = Seq::new(sh.len(), |k: int| Some(rs_rebuilt(sh, d, p)[k]));
        assert(rebuild(e1) == Ok::<Seq<Option<Seq<u8>>>, FecError>(full));
        assert forall|i: int| 0 <= i < d implies #[trigger] full[i] == Some(
            data_shard(frame, i as nat),
        ) by {}
        lemma_assemble_prefix(frame, full, sizes, d);
    }
    assert(frame.subrange(0, shard_end(len, (d - 1) as nat) as int) =~= frame);
}

/// One packet of the round trip: packet `kept[j]` reaches the decoder that
/// took `kept[0..j]`; it fits, and either leaves the frame pending or
/// completes it, handing the frame back.
proof fn lemma_roundtrip_step(
    frame_index: u32,
    frame: Seq<u8>,
    codec: u8,
    pct: nat,
    max_active: usize,
    kept: Seq<int>,
    j: int,
)
    requires
        roundtrip_setting(frame, pct, max_active, kept),
        0 <= j < kept.len(),
    ensures
        ({
            let pk = encoded_packets(frame_index, codec, frame, pct)[kept[j]];
            let m = model_after(frame_index, frame, codec, pct, max_active, kept, j);
            &&& packet_fits(m, pk)
            &&& j + 1 < kept.len() ==> decode_step(m, pk) == (
                model_after(frame_index, frame, codec, pct, max_active, kept, j + 1),
                Ok::<Option<FrameModel>, FecError>(None),
            )
            &&& j + 1 == kept.len() ==> decode_step(m, pk) == (
                DecoderModel {
                    pending: Map::empty(),
                    max_active,
                    last_emitted: Some(frame_index),
                },
                Ok::<Option<FrameModel>, FecError>(Some((frame_index, codec, frame))),
            )
        }),
{
    let len = frame.len();
    let d = data_shard_count(len);
    let p = parity_shard_count(d, pct);
    let idx = kept[j];
    let h = packet_header(frame_index, codec, len, d, p, idx as nat);
    let pk = encoded_packets(frame_index, codec, frame, pct)[idx];
    let m = model_after(frame_index, frame, codec, pct, max_active, kept, j);
    lemma_step_packet(frame_index, frame, codec, pct, max_active, kept, j);
    let payload = pk.subrange(16, pk.len() as int);
    lemma_step_entry(frame_index, frame, codec, pct, max_active, kept, j, h, payload);
    assert(!ignored(m, h));
    assert(packet_fits(m, pk));
    let e1 = entry_after(frame, codec, pct, kept, j + 1);
    assert(crate::fec::joined_entry(m, h, payload) == e1);
    let single = Map::<u32, PendingModel>::empty().insert(frame_index, e1);
    assert(m.pending.insert(frame_index, e1) =~= single);
    if j + 1 < kept.len() {
        assert(single.dom() =~= set![frame_index]);
        assert(evict_older(single, 2 * max_active as nat, u32::MAX) == single);
    } else {
        let rest = m.pending.remove(frame_index);
        assert(rest =~= Map::<u32, PendingModel>::empty());
        assert(evict_older(rest, max_active as nat, frame_index) == rest);
        lemma_complete_frame(frame_index, frame, codec, pct, max_active, kept);
    }
}

/// The decoder after the first `j` (fewer than `d`) packets that arrive.
proof fn lemma_roundtrip_prefix(
    frame_index: u32,
    frame: Seq<u8>,
    codec: u8,
    pct: nat,
    max_active: usize,
    kept: Seq<int>,
    j: int,
)
    requires
        roundtrip_setting(frame, pct, max_active, kept),
        0 <= j < kept.len(),
    ensures
        ({
            let fed = delivered(encoded_packets(frame_index, codec, frame, pct), kept);
            decoder_run(fresh_decoder(max_active), fed.take(j)) == (
                model_after(frame_index, frame, codec, pct, max_active, kept, j),
                Seq::new(j as nat, |k: int| Ok::<Option<FrameModel>, FecError>(None)),
            )
        }),
    decreases j,
{
    let fed = delivered(encoded_packets(frame_index, codec, frame, pct), kept);
    if j == 0 {
        assert(fed.take(0) =~= Seq::<Seq<u8>>::empty());
        assert(fresh_decoder(max_active) == model_after(
            frame_index,
            frame,
            codec,
            pct,
            max_active,
            kept,
            0,
        ));
        assert(Seq::new(0, |k: int| Ok::<Option<FrameModel>, FecError>(None)) =~= seq![]);
    } else {
        lemma_roundtrip_prefix(frame_index, frame, codec, pct, max_active, kept, j - 1);
        lemma_roundtrip_step(frame_index, frame, codec, pct, max_active, kept, j - 1);
        assert(fed.take(j).drop_last() =~= fed.take(j - 1));
        assert(fed.take(j).last() == fed[j - 1]);
        assert(Seq::new((j - 1) as nat, |k: int| Ok::<Option<FrameModel>, FecError>(None)).push(
            Ok(None),
        ) =~= Seq::new(j as nat, |k: int| Ok::<Option<FrameModel>, FecError>(None)));
    }
}

/// Law: the packets of a frame that `encode_frame` encoded, delivered in any
/// order with some lost, make a fresh decoder hand the frame back unchanged,
/// with its index and codec, at the `d`-th packet that arrives (`d` being the
/// number of data shards); earlier packets give nothing. Every packet fits
/// the decoder it reaches. Losses: any, as long as `d` distinct packets arrive
/// and the last data packet is among them, or the frame fills its last shard.
/// (When the last data packet is lost and the frame does not fill its last
/// shard, the frame comes back padded with zeros to a full shard.)
pub proof fn law_fec_roundtrip(
    frame_index: u32,
    frame: Seq<u8>,
    codec: u8,
    pct: nat,
    max_active: usize,
    kept: Seq<int>,
)
    requires
        roundtrip_setting(frame, pct, max_active, kept),
    ensures
        ({
            let fed = delivered(encoded_packets(frame_index, codec, frame, pct), kept);
            let (m, out) = decoder_run(fresh_decoder(max_active), fed);
            &&& forall|j: int|
                0 <= j < fed.len() ==> packet_fits(
                    #[trigger] decoder_run(fresh_decoder(max_active), fed.take(j)).0,
                    fed[j],
                )
            &&& out.len() == fed.len()
            &&& forall|j: int| 0 <= j < out.len() - 1 ==> #[trigger] out[j] == Ok::<Option<FrameModel>, FecError>(None)
            &&& out.last() == Ok::<Option<FrameModel>, FecError>(Some((frame_index, codec, frame)))
        }),
{
    let fed = delivered(encoded_packets(frame_index, codec, frame, pct), kept);
    let n = kept.len() as int;
    assert forall|j: int| 0 <= j < fed.len() implies packet_fits(
        #[trigger] decoder_run(fresh_decoder(max_active), fed.take(j)).0,
        fed[j],
    ) by {
        lemma_roundtrip_prefix(frame_index, frame, codec, pct, max_active, kept, j);
        lemma_roundtrip_step(frame_index, frame, codec, pct, max_active, kept, j);
    }
    lemma_roundtrip_prefix(frame_index, frame, codec, pct, max_active, kept, n - 1);
    lemma_roundtrip_step(frame_index, frame, codec, pct, max_active, kept, n - 1);
    assert(fed.take(n) =~= fed);
    assert(fed.drop_last() =~= fed.take(n - 1));
}

/// Running two batches of packets one after the other is running the first,
/// then the second from where the first left the decoder.
proof fn lemma_run_append(m: DecoderModel, a: Seq<Seq<u8>>, b: Seq<Seq<u8>>)
    ensures
        decoder_run(m, a + b) == (
            decoder_run(decoder_run(m, a).0, b).0,
            decoder_run(m, a).1 + decoder_run(decoder_run(m, a).0, b).1,
        ),
    decreases b.len(),
{
    if b.len() == 0 {
        assert(a + b =~= a);
        assert(decoder_run(m, a).1 + Seq::<Result<Option<FrameModel>, FecError>>::empty()
            =~= decoder_run(m, a).1);
    } else {
        lemma_run_append(m, a, b.drop_last());
        assert((a + b).drop_last() =~= a + b.drop_last());
        assert((a + b).last() == b.last());
        let m1 = decoder_run(m, a).0;
        let o1 = decoder_run(m, a).1;
        let o2 = decoder_run(m1, b.drop_last()).1;
        let r = decode_step(decoder_run(m1, b.drop_last()).0, b.last());
        assert((o1 + o2).push(r.1) =~= o1 + o2.push(r.1));
    }
}

/// A step that hands out a frame records it as the last one handed out.
proof fn lemma_delivery_sets_last(m: DecoderModel, packet: Seq<u8>)
    ensures
        decode_step(m, packet).1 matches Ok(Some(f)) ==> decode_step(m, packet).0.last_emitted
            == Some(f.0),
{
}

/// Packets of a frame already handed out change nothing and give nothing.
proof fn lemma_run_stale(m: DecoderModel, b: Seq<Seq<u8>>, fi: u32)
    requires
        m.last_emitted == Some(fi),
        forall|k: int| 0 <= k < b.len() ==> (parse_header(#[trigger] b[k]) matches Some(h)
            && h.frame_index == fi),
    ensures
        decoder_run(m, b) == (m, Seq::new(b.len(), |k: int| Ok::<Option<FrameModel>, FecError>(None))),
    decreases b.len(),
{
    if b.len() > 0 {
        lemma_run_stale(m, b.drop_last(), fi);
        assert(parse_header(b.last()) matches Some(h) && h.frame_index == fi) by {
            assert(b.last() == b[b.len() - 1]);
        }
        assert(Seq::new((b.len() - 1) as nat, |k: int| Ok::<Option<FrameModel>, FecError>(None)).push(
            Ok(None),
        ) =~= Seq::new(b.len(), |k: int| Ok::<Option<FrameModel>, FecError>(None)));
    }
}

/// Law: once the round trip handed the frame back, every further packet of
/// that frame, whichever and however many, gives nothing and leaves the
/// decoder as it was; so the frame is handed out once, at the `d`-th packet
/// that arrives, and every other packet of it gives `Ok(None)`.
pub proof fn law_fec_late_packets_ignored(
    frame_index: u32,
    frame: Seq<u8>,
    codec: u8,
    pct: nat,
    max_active: usize,
    kept: Seq<int>,
    later: Seq<int>,
)
    requires
        roundtrip_setting(frame, pct, max_active, kept),
        forall|k: int|
            0 <= k < later.len() ==> 0 <= #[trigger] later[k] < data_shard_count(frame.len())
                + parity_shard_count(data_shard_count(frame.len()), pct),
    ensures
        ({
            let pk = encoded_packets(frame_index, codec, frame, pct);
            let fed = delivered(pk, kept);
            let (m, out) = decoder_run(fresh_decoder(max_active), fed);
            decoder_run(fresh_decoder(max_active), fed + delivered(pk, later)) == (
                m,
                out + Seq::new(later.len(), |k: int| Ok::<Option<FrameModel>, FecError>(None)),
            )
        }),
{
    let d = data_shard_count(frame.len());
    let p = parity_shard_count(d, pct);
    let pk = encoded_packets(frame_index, codec, frame, pct);
    let fed = delivered(pk, kept);
    let extra = delivered(pk, later);
    let m0 = fresh_decoder(max_active);
    law_fec_roundtrip(frame_index, frame, codec, pct, max_active, kept);
    let (m, out) = decoder_run(m0, fed);
    assert(fed.len() > 0);
    let m1 = decoder_run(m0, fed.drop_last()).0;
    lemma_delivery_sets_last(m1, fed.last());
    assert(m.last_emitted == Some(frame_index));
    let cw = codeword(frame_data_shards(frame), p);
    assert forall|k: int| 0 <= k < extra.len() implies (parse_header(#[trigger] extra[k]) matches Some(
        h,
    ) && h.frame_index == frame_index) by {
        let idx = later[k];
        let h = packet_header(frame_index, codec, frame.len(), d, p, idx as nat);
        assert(extra[k] == pk[idx]);
        assert(pk[idx] == header_bytes(h) + cw[idx]);
        lemma_header_roundtrip(h, cw[idx]);
    }
    lemma_run_stale(m, extra, frame_index);
    lemma_run_append(m0, fed, extra);
}

/// Law: how many packets a frame becomes. A frame of `len` bytes (not
/// empty) takes the fewest 1380-byte data shards that hold it, and the
/// fewest parity shards, at least one, that make up `pct` percent of the
/// data shards. The encoder's percentage is clamped to 5..=50: values in
/// range are kept.
pub proof fn law_shard_counts(len: nat, pct: nat, p: usize)
    requires
        len > 0,
    ensures
        ({
            let d = data_shard_count(len);
            let q = parity_shard_count(d, pct);
            &&& (d - 1) * 1380 < len <= d * 1380
            &&& q >= 1
            &&& q * 100 >= d * pct
            &&& q == 1 || (q - 1) * 100 < d * pct
        }),
        5 <= clamp_percentage(p) <= 50,
        5 <= p <= 50 ==> clamp_percentage(p) == p,
{
    let d = data_shard_count(len);
    assert(d == (len + 1379) / 1380);
    assert((d - 1) * 1380 < len <= d * 1380) by (nonlinear_arith)
        requires
            d == (len + 1379) / 1380,
            len > 0,
    ;
    let q0 = (d * pct + 99) / 100;
    assert(q0 * 100 >= d * pct && (q0 == 0 || (q0 - 1) * 100 < d * pct)) by (nonlinear_arith)
        requires
            q0 == (d * pct + 99) / 100,
    ;
}

/// Law: the flags of a frame's packets. The first packet carries start of
/// frame (bit 0x01), the last data packet end of frame (0x02) and every
/// parity packet the parity bit (0x04); no other bit is set.
pub proof fn law_packet_flags(idx: nat, d: nat)
    requires
        d > 0,
    ensures
        (packet_flags(idx, d) & 0x01 != 0) <==> idx == 0,
        (packet_flags(idx, d) & 0x02 != 0) <==> idx == d - 1,
        (packet_flags(idx, d) & 0x04 != 0) <==> idx >= d,
        packet_flags(idx, d) & 0xF8 == 0,
{
    let f = packet_flags(idx, d);
    let a: u8 = if idx == 0 { 1 } else { 0 };
    let b: u8 = if idx == d - 1 { 2 } else { 0 };
    let c: u8 = if idx >= d { 4 } else { 0 };
    assert(f == (a + b + c) as u8);
    assert((a == 0 || a == 1) && (b == 0 || b == 2) && (c == 0 || c == 4));
    let x: u8 = (a + b + c) as u8;
    assert(((x & 0x01 != 0) <==> a == 1) && ((x & 0x02 != 0) <==> b == 2) && ((x & 0x04 != 0)
        <==> c == 4) && x & 0xF8 == 0) by (bit_vector)
        requires
            x == (a + b + c) as u8,
            (a == 0 || a == 1) && (b == 0 || b == 2) && (c == 0 || c == 4),
    ;
}

} // verus!
