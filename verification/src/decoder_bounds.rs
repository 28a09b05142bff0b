//! Two properties of the decoder over any packets: its memory stays bounded
//! (never more than twice its frame limit of frames pending), and a frame
//! it handed out is never handed out again.

use crate::fec::{
    complete_step, decode_step, decoder_wf, evict_older, ignored, incomplete_step, joined_entry,
    DecoderModel, FecError, FrameModel, PendingModel,
};
use crate::fec::{add_shard, data_complete, frame_of, new_pending, rebuild};
use crate::fec_laws::{decoder_run, fresh_decoder};
use crate::rtp::{from_be16, header_of, parse_header, RTP_MAGIC};
use crate::frame_keys::min_key;
use vstd::prelude::*;

verus! {

proof fn lemma_min_key_in(s: Set<u32>)
    requires
        s.finite(),
        s.len() > 0,
    ensures
        s.contains(min_key(s)),
        forall|j: u32| s.contains(j) ==> min_key(s) <= j,
    decreases s.len(),
{
    let x = s.choose();
    assert(s.contains(x));
    if s.len() == 1 {
        assert forall|j: u32| s.contains(j) implies x <= j by {
            if j != x {
                assert(s.remove(x).contains(j));
                assert(s.remove(x).len() == 0);
            }
        }
    } else {
        let t = s.remove(x);
        lemma_min_key_in(t);
        let m = min_key(t);
        if x < m {
            assert(s.contains(x) && forall|j: u32| s.contains(j) ==> x <= j) by {
                assert forall|j: u32| s.contains(j) implies x <= j by {
                    if j != x {
                        assert(t.contains(j));
                    }
                }
            }
        } else {
            assert(s.contains(m) && forall|j: u32| s.contains(j) ==> m <= j) by {
                assert forall|j: u32| s.contains(j) implies m <= j by {
                    if j != x {
                        assert(t.contains(j));
                    }
                }
            }
        }
    }
}

proof fn lemma_evict_bounds(m: Map<u32, PendingModel>, limit: nat, bound: u32)
    requires
        m.dom().finite(),
    ensures
        evict_older(m, limit, bound).dom().finite(),
        evict_older(m, limit, bound).dom().len() <= m.dom().len(),
        bound == u32::MAX ==> evict_older(m, limit, bound).dom().len() <= limit,
    decreases m.dom().len(),
{
    if m.dom().len() > limit {
        lemma_min_key_in(m.dom());
        let k = min_key(m.dom());
        if k <= bound {
            assert(m.remove(k).dom() =~= m.dom().remove(k));
            lemma_evict_bounds(m.remove(k), limit, bound);
        }
    }
}

/// Law: a decoder with at most twice its frame limit of frames pending
/// still has at most that many after any packet.
pub proof fn law_pending_frames_bounded(m: DecoderModel, packet: Seq<u8>)
    requires
        m.pending.dom().finite(),
        m.pending.dom().len() <= 2 * m.max_active,
    ensures
        decode_step(m, packet).0.max_active == m.max_active,
        decode_step(m, packet).0.pending.dom().finite(),
        decode_step(m, packet).0.pending.dom().len() <= 2 * m.max_active,
{
    match parse_header(packet) {
        None => {},
        Some(h) => {
            if !ignored(m, h) {
                let fi = h.frame_index;
                let p1 = joined_entry(m, h, packet.subrange(16, packet.len() as int));
                if p1.received >= p1.total_data {
                    let rest = m.pending.remove(fi);
                    assert(rest.dom() =~= m.pending.dom().remove(fi));
                    lemma_evict_bounds(rest, m.max_active as nat, fi);
                    assert(complete_step(m, fi, p1).0.pending.dom().len() <= 2 * m.max_active);
                } else {
                    let ins = m.pending.insert(fi, p1);
                    assert(ins.dom() =~= m.pending.dom().insert(fi));
                    lemma_evict_bounds(ins, (2 * m.max_active) as nat, u32::MAX);
                    assert(incomplete_step(m, fi, p1).pending.dom().len() <= 2 * m.max_active);
                }
            }
        },
    }
}

/// Law: once a frame is handed out, every later packet of that frame is
/// ignored: the decoder stays as it is and hands out nothing.
pub proof fn law_delivered_frame_not_repeated(m: DecoderModel, packet: Seq<u8>, later: Seq<u8>)
    requires
        decode_step(m, packet).1 matches Ok(Some(_)),
        parse_header(later) matches Some(h) && parse_header(packet) matches Some(g)
            && h.frame_index == g.frame_index,
    ensures
        decode_step(decode_step(m, packet).0, later) == (
            decode_step(m, packet).0,
            Ok::<Option<FrameModel>, FecError>(None),
        ),
{
}

/// Law: a packet that is too short, lacks the magic, names no data shard
/// or names a slot beyond its frame's shards gives nothing and leaves the
/// decoder as it was, so every later packet is taken as if it never came.
pub proof fn law_malformed_packet_ignored(m: DecoderModel, packet: Seq<u8>)
    requires
        packet.len() < 16 || from_be16(packet[0], packet[1]) != RTP_MAGIC || ({
            let h = header_of(packet);
            h.total_data_shards == 0 || h.packet_index >= h.total_data_shards
                + h.total_parity_shards
        }),
    ensures
        decode_step(m, packet) == (m, Ok::<Option<FrameModel>, FecError>(None)),
{
}

/// Law: frames handed out within the last 500 indices are stale. A packet
/// that alone makes up its frame (one data shard, no parity) of a frame not
/// pending gives nothing exactly when its index is at most 500 below the
/// last index handed out (and not above it); otherwise it gives its frame.
pub proof fn law_stale_window(m: DecoderModel, packet: Seq<u8>, last: u32)
    requires
        decoder_wf(m),
        m.last_emitted == Some(last),
        parse_header(packet) matches Some(h) && h.total_data_shards == 1 && h.total_parity_shards
            == 0 && h.packet_index == 0 && !m.pending.contains_key(h.frame_index),
    ensures
        ({
            let fi = parse_header(packet).unwrap().frame_index;
            let r = decode_step(m, packet).1;
            &&& (r == Ok::<Option<FrameModel>, FecError>(None)) <==> (fi <= last && last - fi
                < 500)
            &&& !(fi <= last && last - fi < 500) ==> (r matches Ok(Some(f)) && f.0 == fi)
        }),
{
    let h = parse_header(packet).unwrap();
    let fi = h.frame_index;
    assert(ignored(m, h) <==> (fi <= last && last - fi < 500));
    if !ignored(m, h) {
        let payload = packet.subrange(16, packet.len() as int);
        let p0 = new_pending(h, payload.len());
        let p1 = joined_entry(m, h, payload);
        assert(p1 == add_shard(p0, h, payload));
        assert(p0.shards.len() == 1);
        assert(p0.shards[0] is None);
        assert(p1.received == 1 && p1.total_data == 1);
        assert(p1.shards[0] is Some);
        assert(data_complete(p1));
        assert(rebuild(p1) == Ok::<Seq<Option<Seq<u8>>>, FecError>(p1.shards));
        assert(frame_of(fi, p1) is Ok);
        assert(decode_step(m, packet) == complete_step(m, fi, p1));
    }
}

/// Law: from a fresh decoder, over any packets, the decoder never holds
/// more than twice its frame limit of frames pending.
pub proof fn law_pending_bounded_over_runs(max_active: usize, packets: Seq<Seq<u8>>)
    ensures
        forall|j: int|
            0 <= j <= packets.len() ==> {
                let m = #[trigger] decoder_run(fresh_decoder(max_active), packets.take(j)).0;
                &&& m.pending.dom().finite()
                &&& m.max_active == max_active
                &&& m.pending.dom().len() <= 2 * max_active
            },
    decreases packets.len(),
{
    let m0 = fresh_decoder(max_active);
    assert forall|j: int| 0 <= j <= packets.len() implies {
        let m = #[trigger] decoder_run(m0, packets.take(j)).0;
        &&& m.pending.dom().finite()
        &&& m.max_active == max_active
        &&& m.pending.dom().len() <= 2 * max_active
    } by {
        lemma_run_prefix(max_active, packets, j);
    }
}

proof fn lemma_run_prefix(max_active: usize, packets: Seq<Seq<u8>>, j: int)
    requires
        0 <= j <= packets.len(),
    ensures
        decoder_run(fresh_decoder(max_active), packets.take(j)).0.pending.dom().finite(),
        decoder_run(fresh_decoder(max_active), packets.take(j)).0.max_active == max_active,
        decoder_run(fresh_decoder(max_active), packets.take(j)).0.pending.dom().len() <= 2
            * max_active,
    decreases j,
{
    let m0 = fresh_decoder(max_active);
    if j == 0 {
        assert(packets.take(0) =~= Seq::<Seq<u8>>::empty());
        assert(m0.pending.dom() =~= Set::<u32>::empty());
    } else {
        lemma_run_prefix(max_active, packets, j - 1);
        let prev = decoder_run(m0, packets.take(j - 1)).0;
        assert(packets.take(j).drop_last() =~= packets.take(j - 1));
        assert(packets.take(j).last() == packets[j - 1]);
        law_pending_frames_bounded(prev, packets[j - 1]);
    }
}

/// Law: when frames are dropped to respect the limit, the oldest go first:
/// every frame a step drops has a smaller index than every frame it keeps
/// (the frame the packet belongs to aside).
pub proof fn law_oldest_dropped_first(m: DecoderModel, packet: Seq<u8>, dropped: u32, kept: u32)
    requires
        m.pending.dom().finite(),
        m.pending.contains_key(dropped),
        !decode_step(m, packet).0.pending.contains_key(dropped),
        decode_step(m, packet).0.pending.contains_key(kept),
        parse_header(packet) matches Some(h) && h.frame_index != dropped,
    ensures
        dropped < kept,
{
    let h = parse_header(packet).unwrap();
    let fi = h.frame_index;
    let p1 = joined_entry(m, h, packet.subrange(16, packet.len() as int));
    if ignored(m, h) {
    } else if p1.received >= p1.total_data {
        let rest = m.pending.remove(fi);
        assert(rest.dom() =~= m.pending.dom().remove(fi));
        assert(rest.contains_key(dropped));
        if frame_of(fi, p1) is Ok {
            lemma_evict_order(rest, m.max_active as nat, fi, dropped, kept);
        }
    } else {
        let ins = m.pending.insert(fi, p1);
        assert(ins.dom() =~= m.pending.dom().insert(fi));
        lemma_evict_order(ins, (2 * m.max_active) as nat, u32::MAX, dropped, kept);
    }
}

proof fn lemma_evict_order(m: Map<u32, PendingModel>, limit: nat, bound: u32, dropped: u32, kept: u32)
    requires
        m.dom().finite(),
        m.contains_key(dropped),
        !evict_older(m, limit, bound).contains_key(dropped),
        evict_older(m, limit, bound).contains_key(kept),
    ensures
        dropped < kept,
        m.contains_key(kept),
    decreases m.dom().len(),
{
    if m.dom().len() > limit {
        lemma_min_key_in(m.dom());
        let k = min_key(m.dom());
        if k <= bound {
            let r = m.remove(k);
            assert(r.dom() =~= m.dom().remove(k));
            lemma_evict_subset(r, limit, bound, kept);
            if dropped == k {
                assert(r.contains_key(kept));
                assert(kept != k);
            } else {
                lemma_evict_order(r, limit, bound, dropped, kept);
            }
        }
    }
}

proof fn lemma_evict_subset(m: Map<u32, PendingModel>, limit: nat, bound: u32, key: u32)
    requires
        m.dom().finite(),
        evict_older(m, limit, bound).contains_key(key),
    ensures
        m.contains_key(key),
        evict_older(m, limit, bound)[key] == m[key],
    decreases m.dom().len(),
{
    if m.dom().len() > limit {
        lemma_min_key_in(m.dom());
        let k = min_key(m.dom());
        if k <= bound {
            let r = m.remove(k);
            assert(r.dom() =~= m.dom().remove(k));
            lemma_evict_subset(r, limit, bound, key);
        }
    }
}

} // verus!
