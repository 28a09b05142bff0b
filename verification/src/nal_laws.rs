//! What the access-unit extractor promises over a whole stream fed to it in
//! chunks: the units it hands out, one call after the other, are the stream
//! from its first start code on, contiguous and in order; they do not depend
//! on how the stream was cut into chunks; each unit has the NAL structure of
//! one access unit; and an AV1 stream is never split.

use crate::capture::VideoCodec;
use crate::nal_extractor::{
    begins_with_start_code, classify_spec, concat_units, extract_units, group_from,
    law_av1_never_splits, law_units_tile_stream, lemma_scan_codes_in_bounds, opens_unit, scan_codes, start_codes,
    NalFrameType,
};
use vstd::prelude::*;

verus! {

/// The chunks one after the other.
pub open spec fn flatten(chunks: Seq<Seq<u8>>) -> Seq<u8>
    decreases chunks.len(),
{
    if chunks.len() == 0 {
        seq![]
    } else {
        flatten(chunks.drop_last()) + chunks.last()
    }
}

/// What a fresh extractor for `codec` hands out over the calls
/// `push_bytes(chunks[0])`, `push_bytes(chunks[1])`, ... (all units, in
/// order), and what it then holds: each call takes the units of what is
/// buffered plus the new chunk and keeps the rest, as `push_bytes` states.
pub open spec fn extract_run(codec: VideoCodec, chunks: Seq<Seq<u8>>) -> (Seq<Seq<u8>>, Seq<u8>)
    decreases chunks.len(),
{
    if chunks.len() == 0 {
        (seq![], seq![])
    } else {
        let (f, p) = extract_run(codec, chunks.drop_last());
        let b = p + chunks.last();
        let (u, last) = extract_units(b, codec);
        (f + u, b.subrange(last, b.len() as int))
    }
}

/// A scan that finds a start code in `s` finds the same first code once more
/// bytes follow.
proof fn lemma_scan_prefix(s: Seq<u8>, c: Seq<u8>, i: int)
    requires
        0 <= i,
        scan_codes(s, i).len() > 0,
    ensures
        scan_codes(s + c, i).len() > 0,
        scan_codes(s + c, i)[0] == scan_codes(s, i)[0],
    decreases s.len() - i,
{
    let t = s + c;
    assert(i + 2 < s.len());
    assert(t[i] == s[i] && t[i + 1] == s[i + 1] && t[i + 2] == s[i + 2]);
    if s[i] == 0 && s[i + 1] == 0 && i + 3 < s.len() && s[i + 2] == 0 && s[i + 3] == 1 {
        assert(t[i + 3] == s[i + 3]);
    } else if s[i] == 0 && s[i + 1] == 0 && s[i + 2] == 1 {
    } else {
        assert(scan_codes(s, i) == scan_codes(s, i + 1));
        if i + 3 < s.len() {
            assert(t[i + 3] == s[i + 3]);
        }
        lemma_scan_prefix(s, c, i + 1);
        assert(scan_codes(t, i) == scan_codes(t, i + 1));
    }
}

/// A buffer that opens with a start code has its first code at 0.
proof fn lemma_first_code_at_start(b: Seq<u8>)
    requires
        begins_with_start_code(b),
    ensures
        start_codes(b).len() > 0,
        start_codes(b)[0].0 == 0,
{
}

/// The bytes of two lists of units, one after the other.
proof fn lemma_concat_units_append(a: Seq<Seq<u8>>, b: Seq<Seq<u8>>)
    ensures
        concat_units(a + b) == concat_units(a) + concat_units(b),
    decreases b.len(),
{
    if b.len() == 0 {
        assert(a + b =~= a);
        assert(concat_units(b) =~= Seq::<u8>::empty());
        assert(concat_units(a) + concat_units(b) =~= concat_units(a));
    } else {
        lemma_concat_units_append(a, b.drop_last());
        assert((a + b).drop_last() =~= a + b.drop_last());
        assert((a + b).last() == b.last());
        assert(concat_units(a) + concat_units(b.drop_last()) + b.last() =~= concat_units(a) + (
        concat_units(b.drop_last()) + b.last()));
    }
}

/// Law: over any chunking of a stream, the units handed out so far are the
/// stream from its first start code on, contiguous and in order, followed by
/// what stays buffered; nothing is lost, repeated or reordered, and bytes
/// before the first start code are never handed out. Each unit opens with a
/// start code. Until a unit is handed out, everything stays buffered.
pub proof fn law_units_contiguous_across_calls(codec: VideoCodec, chunks: Seq<Seq<u8>>)
    requires
        flatten(chunks).len() <= usize::MAX,
    ensures
        ({
            let (f, p) = extract_run(codec, chunks);
            let s = flatten(chunks);
            &&& f.len() == 0 ==> p == s
            &&& f.len() > 0 ==> {
                &&& start_codes(s).len() > 0
                &&& concat_units(f) + p == s.subrange(start_codes(s)[0].0 as int, s.len() as int)
                &&& begins_with_start_code(p)
            }
            &&& forall|k: int| 0 <= k < f.len() ==> begins_with_start_code(#[trigger] f[k])
        }),
    decreases chunks.len(),
{
    if chunks.len() > 0 {
        let prefix = chunks.drop_last();
        let c = chunks.last();
        let s0 = flatten(prefix);
        let s = flatten(chunks);
        assert(s == s0 + c);
        law_units_contiguous_across_calls(codec, prefix);
        let (f0, p0) = extract_run(codec, prefix);
        let b = p0 + c;
        let (u, last) = extract_units(b, codec);
        let (f, p) = extract_run(codec, chunks);
        assert(f == f0 + u && p == b.subrange(last, b.len() as int));
        assert(s0.len() <= s.len());
        lemma_scan_codes_in_bounds(s0, 0);
        if f0.len() > 0 {
            let o0 = start_codes(s0)[0].0 as int;
            assert(o0 + 2 < s0.len());
            assert(p0.len() <= s0.len()) by {
                assert((concat_units(f0) + p0).len() == s0.subrange(o0, s0.len() as int).len());
            }
        }
        assert(b.len() <= s.len());
        law_units_tile_stream(b, codec);
        assert forall|k: int| 0 <= k < f.len() implies begins_with_start_code(#[trigger] f[k]) by {
            if k < f0.len() {
                assert(f[k] == f0[k]);
            } else {
                assert(f[k] == u[k - f0.len()]);
            }
        }
        lemma_concat_units_append(f0, u);
        if f0.len() == 0 {
            assert(b =~= s);
            assert(f =~= u);
            if u.len() == 0 {
                assert(p =~= s);
            }
        } else {
            let o0 = start_codes(s0)[0].0 as int;
            lemma_scan_prefix(s0, c, 0);
            assert(start_codes(s)[0].0 == o0);
            lemma_first_code_at_start(b);
            assert(b.len() >= 3);
            assert(concat_units(f0) + b =~= s.subrange(o0, s.len() as int)) by {
                let x = concat_units(f0);
                assert(x + p0 == s0.subrange(o0, s0.len() as int));
                assert(o0 <= s0.len());
                assert(x + b =~= (x + p0) + c);
                assert(s0.subrange(o0, s0.len() as int) + c =~= s.subrange(o0, s.len() as int));
            }
            if u.len() == 0 {
                assert(p =~= b);
                assert(concat_units(u) =~= Seq::<u8>::empty());
                assert(concat_units(f) =~= concat_units(f0));
            } else {
                assert(b.subrange(0, b.len() as int) =~= b);
                assert(concat_units(f) + p =~= concat_units(f0) + (concat_units(u) + p));
            }
        }
    }
}

/// The kind of the NAL unit behind start code `k` of `buf`.
pub open spec fn nal_kind(buf: Seq<u8>, codec: VideoCodec, codes: Seq<(usize, usize)>, k: int) -> NalFrameType {
    classify_spec(codec, buf[codes[k].0 + codes[k].1])
}

/// The NAL units behind codes `a..b` make one access unit's worth: none but
/// the first is a delimiter, and after a slice comes neither another slice
/// nor a sequence start.
pub open spec fn well_grouped(buf: Seq<u8>, codec: VideoCodec, codes: Seq<(usize, usize)>, a: int, b: int) -> bool {
    &&& forall|j: int| a < j < b ==> #[trigger] nal_kind(buf, codec, codes, j) != NalFrameType::Aud
    &&& forall|j1: int, j2: int|
        a <= j1 < j2 < b && #[trigger] nal_kind(buf, codec, codes, j1) == NalFrameType::VclSlice
            ==> #[trigger] nal_kind(buf, codec, codes, j2) != NalFrameType::VclSlice && nal_kind(
            buf,
            codec,
            codes,
            j2,
        ) != NalFrameType::SequenceStart
}

/// Some NAL unit behind codes `a..b` is a slice.
pub open spec fn holds_slice(buf: Seq<u8>, codec: VideoCodec, codes: Seq<(usize, usize)>, a: int, b: int) -> bool {
    exists|j: int| a <= j < b && #[trigger] nal_kind(buf, codec, codes, j) == NalFrameType::VclSlice
}

/// The NAL unit behind code `b` opens a new access unit after codes `a..b`:
/// it is a delimiter, or a slice or sequence start after a slice.
pub open spec fn opens_next(buf: Seq<u8>, codec: VideoCodec, codes: Seq<(usize, usize)>, a: int, b: int) -> bool {
    let t = nal_kind(buf, codec, codes, b);
    t == NalFrameType::Aud || ((t == NalFrameType::VclSlice || t == NalFrameType::SequenceStart)
        && holds_slice(buf, codec, codes, a, b))
}

/// Where the units handed out lie among the start codes of `buf`: unit `k`
/// runs from code `cuts[k]` to code `cuts[k + 1]`, and its NAL units are
/// grouped as an access unit, ended by one that opens the next.
pub open spec fn cut_structure(
    buf: Seq<u8>,
    codec: VideoCodec,
    codes: Seq<(usize, usize)>,
    frames: Seq<Seq<u8>>,
    cuts: Seq<int>,
) -> bool {
    &&& cuts.len() == frames.len() + 1
    &&& cuts[0] == 0
    &&& 0 <= cuts.last() < codes.len()
    &&& forall|k: int| 0 <= k <= cuts.last() ==> #[trigger] codes[k].0 + codes[k].1 < buf.len()
    &&& forall|k: int|
        0 <= k < frames.len() ==> {
            &&& #[trigger] cuts[k] < cuts[k + 1]
            &&& frames[k] == buf.subrange(codes[cuts[k]].0 as int, codes[cuts[k + 1]].0 as int)
            &&& well_grouped(buf, codec, codes, cuts[k], cuts[k + 1])
            &&& opens_next(buf, codec, codes, cuts[k], cuts[k + 1])
        }
}

proof fn lemma_cut_step(
    buf: Seq<u8>,
    codec: VideoCodec,
    codes: Seq<(usize, usize)>,
    i: int,
    j: int,
    frames: Seq<Seq<u8>>,
    cuts: Seq<int>,
)
    requires
        0 <= j < i < codes.len(),
        codes[i].0 + codes[i].1 < buf.len(),
        codes[j].0 < codes[i].0,
        cuts.last() == j,
        forall|k: int| 0 <= k < i ==> #[trigger] codes[k].0 + codes[k].1 < buf.len(),
        cut_structure(buf, codec, codes, frames, cuts),
        well_grouped(buf, codec, codes, j, i),
        opens_next(buf, codec, codes, j, i),
    ensures
        cut_structure(
            buf,
            codec,
            codes,
            frames.push(buf.subrange(codes[j].0 as int, codes[i].0 as int)),
            cuts.push(i),
        ),
{
    let fr2 = frames.push(buf.subrange(codes[j].0 as int, codes[i].0 as int));
    let c2 = cuts.push(i);
    assert forall|k: int| 0 <= k <= c2.last() implies #[trigger] codes[k].0 + codes[k].1
        < buf.len() by {}
    assert forall|k: int| 0 <= k < fr2.len() implies {
        &&& #[trigger] c2[k] < c2[k + 1]
        &&& fr2[k] == buf.subrange(codes[c2[k]].0 as int, codes[c2[k + 1]].0 as int)
        &&& well_grouped(buf, codec, codes, c2[k], c2[k + 1])
        &&& opens_next(buf, codec, codes, c2[k], c2[k + 1])
    } by {
        if k < frames.len() {
            assert(c2[k] == cuts[k] && c2[k + 1] == cuts[k + 1]);
            assert(fr2[k] == frames[k]);
        } else {
            assert(c2[k] == j && c2[k + 1] == i);
        }
    }
}

proof fn lemma_nocut_step(
    buf: Seq<u8>,
    codec: VideoCodec,
    codes: Seq<(usize, usize)>,
    i: int,
    j: int,
    has_vcl: bool,
)
    requires
        0 <= j <= i,
        well_grouped(buf, codec, codes, j, i),
        has_vcl == holds_slice(buf, codec, codes, j, i),
        i > j ==> !opens_unit(nal_kind(buf, codec, codes, i), has_vcl),
    ensures
        well_grouped(buf, codec, codes, j, i + 1),
        (has_vcl || nal_kind(buf, codec, codes, i) == NalFrameType::VclSlice) == holds_slice(
            buf,
            codec,
            codes,
            j,
            i + 1,
        ),
{
    let t = nal_kind(buf, codec, codes, i);
    assert forall|x: int| j < x < i + 1 implies #[trigger] nal_kind(buf, codec, codes, x)
        != NalFrameType::Aud by {}
    assert forall|j1: int, j2: int|
        j <= j1 < j2 < i + 1 && #[trigger] nal_kind(buf, codec, codes, j1) == NalFrameType::VclSlice
            implies #[trigger] nal_kind(buf, codec, codes, j2) != NalFrameType::VclSlice && nal_kind(
        buf,
        codec,
        codes,
        j2,
    ) != NalFrameType::SequenceStart by {
        if j2 == i {
            assert(holds_slice(buf, codec, codes, j, i));
        }
    }
    if holds_slice(buf, codec, codes, j, i + 1) && t != NalFrameType::VclSlice {
        let w = choose|w: int|
            j <= w < i + 1 && #[trigger] nal_kind(buf, codec, codes, w) == NalFrameType::VclSlice;
        assert(w < i);
        assert(holds_slice(buf, codec, codes, j, i));
    }
    if has_vcl {
        let w = choose|w: int|
            j <= w < i && #[trigger] nal_kind(buf, codec, codes, w) == NalFrameType::VclSlice;
        assert(j <= w < i + 1);
    }
}

proof fn lemma_group_structure(
    buf: Seq<u8>,
    codec: VideoCodec,
    codes: Seq<(usize, usize)>,
    i: int,
    j: int,
    start: int,
    has_vcl: bool,
    last: int,
    frames: Seq<Seq<u8>>,
    cuts: Seq<int>,
) -> (out: Seq<int>)
    requires
        codes == start_codes(buf),
        buf.len() <= usize::MAX,
        0 <= j <= i <= codes.len(),
        j < codes.len(),
        start == codes[j].0,
        cuts.last() == j,
        forall|k: int| 0 <= k < i ==> #[trigger] codes[k].0 + codes[k].1 < buf.len(),
        cut_structure(buf, codec, codes, frames, cuts),
        well_grouped(buf, codec, codes, j, i),
        has_vcl == holds_slice(buf, codec, codes, j, i),
        frames.len() > 0 ==> last == start,
    ensures
        ({
            let (fr, l) = group_from(buf, codec, codes, i, start, has_vcl, last, frames);
            &&& cut_structure(buf, codec, codes, fr, out)
            &&& fr.len() > 0 ==> codes[out.last()].0 == l
        }),
    decreases codes.len() - i,
{
    lemma_scan_codes_in_bounds(buf, 0);
    if i >= codes.len() {
        cuts
    } else {
        let off = codes[i].0 as int;
        let hdr = off + codes[i].1;
        if hdr >= buf.len() {
            cuts
        } else {
            let t = classify_spec(codec, buf[hdr]);
            assert(t == nal_kind(buf, codec, codes, i));
            if i > j {
                assert(codes[j].0 + codes[j].1 <= codes[i].0);
            }
            let cut = opens_unit(t, has_vcl) && off > start;
            let vcl2 = (if cut { false } else { has_vcl }) || t == NalFrameType::VclSlice;
            if cut {
                let fr2 = frames.push(buf.subrange(start, off));
                assert(opens_next(buf, codec, codes, j, i));
                lemma_cut_step(buf, codec, codes, i, j, frames, cuts);
                lemma_nocut_step(buf, codec, codes, i, i, false);
                assert(forall|k: int| 0 <= k < i + 1 ==> #[trigger] codes[k].0 + codes[k].1 < buf.len());
                lemma_group_structure(buf, codec, codes, i + 1, i, off, vcl2, off, fr2, cuts.push(i))
            } else {
                lemma_nocut_step(buf, codec, codes, i, j, has_vcl);
                assert(forall|k: int| 0 <= k < i + 1 ==> #[trigger] codes[k].0 + codes[k].1 < buf.len());
                lemma_group_structure(buf, codec, codes, i + 1, j, start, vcl2, last, frames, cuts)
            }
        }
    }
}

/// Law: the units handed out lie between start codes of the buffer and each
/// is grouped as an access unit: no NAL unit but its first is a delimiter,
/// it holds at most one slice and no sequence start after its slice, and
/// the NAL unit that opens the next unit is a delimiter, or a slice or
/// sequence start while this unit holds a slice. Every NAL header looked at
/// lies in the buffer, and what stays buffered begins at the last cut.
pub proof fn law_unit_structure(buf: Seq<u8>, codec: VideoCodec) -> (cuts: Seq<int>)
    requires
        buf.len() <= usize::MAX,
    ensures
        ({
            let (units, last) = extract_units(buf, codec);
            let codes = start_codes(buf);
            units.len() > 0 ==> cut_structure(buf, codec, codes, units, cuts) && codes[cuts.last()].0
                == last
        }),
{
    let codes = start_codes(buf);
    if codes.len() < 2 {
        seq![0]
    } else {
        let c0 = seq![0int];
        lemma_scan_codes_in_bounds(buf, 0);
        assert(codes[0].0 + codes[0].1 <= codes[1].0);
        assert(cut_structure(buf, codec, codes, Seq::<Seq<u8>>::empty(), c0));
        assert(well_grouped(buf, codec, codes, 0, 0));
        assert(!holds_slice(buf, codec, codes, 0, 0));
        lemma_group_structure(buf, codec, codes, 0, 0, codes[0].0 as int, false, 0, seq![], c0)
    }
}

/// A scan of `s` finds its start codes again, at the same places and as the
/// first ones, once more bytes follow `s`.
proof fn lemma_scan_extend(s: Seq<u8>, c: Seq<u8>, i: int)
    requires
        0 <= i,
    ensures
        scan_codes(s, i).len() <= scan_codes(s + c, i).len(),
        forall|k: int|
            0 <= k < scan_codes(s, i).len() ==> #[trigger] scan_codes(s + c, i)[k] == scan_codes(
                s,
                i,
            )[k],
    decreases s.len() - i,
{
    let t = s + c;
    if i + 2 < s.len() {
        assert(t[i] == s[i] && t[i + 1] == s[i + 1] && t[i + 2] == s[i + 2]);
        if i + 3 < s.len() {
            assert(t[i + 3] == s[i + 3]);
        }
        if s[i] == 0 && s[i + 1] == 0 && i + 3 < s.len() && s[i + 2] == 0 && s[i + 3] == 1 {
            lemma_scan_extend(s, c, i + 4);
            let a = scan_codes(s, i + 4);
            let b = scan_codes(t, i + 4);
            assert(scan_codes(s, i) == seq![(i as usize, 4usize)] + a);
            assert(scan_codes(t, i) == seq![(i as usize, 4usize)] + b);
            assert forall|k: int| 0 <= k < scan_codes(s, i).len() implies #[trigger] scan_codes(
                t,
                i,
            )[k] == scan_codes(s, i)[k] by {
                if k > 0 {
                    assert(scan_codes(t, i)[k] == b[k - 1]);
                    assert(scan_codes(s, i)[k] == a[k - 1]);
                }
            }
        } else if s[i] == 0 && s[i + 1] == 0 && s[i + 2] == 1 {
            lemma_scan_extend(s, c, i + 3);
            let a = scan_codes(s, i + 3);
            let b = scan_codes(t, i + 3);
            assert(scan_codes(s, i) == seq![(i as usize, 3usize)] + a);
            assert(scan_codes(t, i) == seq![(i as usize, 3usize)] + b);
            assert forall|k: int| 0 <= k < scan_codes(s, i).len() implies #[trigger] scan_codes(
                t,
                i,
            )[k] == scan_codes(s, i)[k] by {
                if k > 0 {
                    assert(scan_codes(t, i)[k] == b[k - 1]);
                    assert(scan_codes(s, i)[k] == a[k - 1]);
                }
            }
        } else if s[i] == 0 && s[i + 1] == 0 && s[i + 2] == 0 && i + 3 == s.len() {
            assert(scan_codes(s, i) == scan_codes(s, i + 1));
            assert(scan_codes(s, i + 1) =~= Seq::<(usize, usize)>::empty());
        } else {
            lemma_scan_extend(s, c, i + 1);
            assert(scan_codes(s, i) == scan_codes(s, i + 1));
            assert(scan_codes(t, i) == scan_codes(t, i + 1));
        }
    }
}

/// A scan resumed at the `k`-th code it found finds the remaining codes.
proof fn lemma_scan_suffix(s: Seq<u8>, i: int, k: int)
    requires
        0 <= i,
        0 <= k < scan_codes(s, i).len(),
        s.len() <= usize::MAX,
    ensures
        scan_codes(s, i).subrange(k, scan_codes(s, i).len() as int) == scan_codes(
            s,
            scan_codes(s, i)[k].0 as int,
        ),
    decreases s.len() - i,
{
    let sc = scan_codes(s, i);
    if s[i] == 0 && s[i + 1] == 0 && i + 3 < s.len() && s[i + 2] == 0 && s[i + 3] == 1 {
        let r = scan_codes(s, i + 4);
        assert(sc == seq![(i as usize, 4usize)] + r);
        if k == 0 {
            assert(sc.subrange(0, sc.len() as int) =~= sc);
        } else {
            lemma_scan_suffix(s, i + 4, k - 1);
            assert(sc.subrange(k, sc.len() as int) =~= r.subrange(k - 1, r.len() as int));
            assert(sc[k] == r[k - 1]);
        }
    } else if s[i] == 0 && s[i + 1] == 0 && s[i + 2] == 1 {
        let r = scan_codes(s, i + 3);
        assert(sc == seq![(i as usize, 3usize)] + r);
        if k == 0 {
            assert(sc.subrange(0, sc.len() as int) =~= sc);
        } else {
            lemma_scan_suffix(s, i + 3, k - 1);
            assert(sc.subrange(k, sc.len() as int) =~= r.subrange(k - 1, r.len() as int));
            assert(sc[k] == r[k - 1]);
        }
    } else {
        assert(sc == scan_codes(s, i + 1));
        lemma_scan_suffix(s, i + 1, k);
    }
}

/// Scanning the bytes of `x` from `d` on finds the codes that a scan of `x`
/// resumed at `d` finds, moved back by `d`.
proof fn lemma_scan_shift(x: Seq<u8>, d: int, i: int)
    requires
        0 <= d <= x.len(),
        0 <= i,
        x.len() <= usize::MAX,
    ensures
        scan_codes(x.subrange(d, x.len() as int), i).len() == scan_codes(x, i + d).len(),
        forall|k: int|
            0 <= k < scan_codes(x, i + d).len() ==> (#[trigger] scan_codes(
                x.subrange(d, x.len() as int),
                i,
            )[k]).0 + d == scan_codes(x, i + d)[k].0 && scan_codes(
                x.subrange(d, x.len() as int),
                i,
            )[k].1 == scan_codes(x, i + d)[k].1,
    decreases x.len() - i - d,
{
    let y = x.subrange(d, x.len() as int);
    let sy = scan_codes(y, i);
    let sx = scan_codes(x, i + d);
    if i + 2 < y.len() {
        assert(y[i] == x[i + d] && y[i + 1] == x[i + d + 1] && y[i + 2] == x[i + d + 2]);
        if i + 3 < y.len() {
            assert(y[i + 3] == x[i + d + 3]);
        }
        if y[i] == 0 && y[i + 1] == 0 && i + 3 < y.len() && y[i + 2] == 0 && y[i + 3] == 1 {
            lemma_scan_shift(x, d, i + 4);
            let a = scan_codes(y, i + 4);
            let b = scan_codes(x, i + 4 + d);
            assert(sy == seq![(i as usize, 4usize)] + a);
            assert(sx == seq![((i + d) as usize, 4usize)] + b);
            assert forall|k: int| 0 <= k < sx.len() implies (#[trigger] sy[k]).0 + d == sx[k].0
                && sy[k].1 == sx[k].1 by {
                if k > 0 {
                    assert(sy[k] == a[k - 1]);
                    assert(sx[k] == b[k - 1]);
                }
            }
        } else if y[i] == 0 && y[i + 1] == 0 && y[i + 2] == 1 {
            lemma_scan_shift(x, d, i + 3);
            let a = scan_codes(y, i + 3);
            let b = scan_codes(x, i + 3 + d);
            assert(sy == seq![(i as usize, 3usize)] + a);
            assert(sx == seq![((i + d) as usize, 3usize)] + b);
            assert forall|k: int| 0 <= k < sx.len() implies (#[trigger] sy[k]).0 + d == sx[k].0
                && sy[k].1 == sx[k].1 by {
                if k > 0 {
                    assert(sy[k] == a[k - 1]);
                    assert(sx[k] == b[k - 1]);
                }
            }
        } else {
            lemma_scan_shift(x, d, i + 1);
            assert(sy == scan_codes(y, i + 1));
            assert(sx == scan_codes(x, i + 1 + d));
        }
    }
}

/// Grouping from any state hands out, after the units already handed out,
/// what grouping from the same state with none handed out gives.
proof fn lemma_group_append(
    buf: Seq<u8>,
    codec: VideoCodec,
    codes: Seq<(usize, usize)>,
    i: int,
    start: int,
    has_vcl: bool,
    last: int,
    frames: Seq<Seq<u8>>,
)
    ensures
        ({
            let g = group_from(buf, codec, codes, i, start, has_vcl, 0, seq![]);
            group_from(buf, codec, codes, i, start, has_vcl, last, frames) == (frames + g.0, if g.0.len()
                == 0 {
                last
            } else {
                g.1
            })
        }),
    decreases codes.len() - i,
{
    if i < 0 || i >= codes.len() || codes[i].0 + codes[i].1 >= buf.len() {
        assert(frames + Seq::<Seq<u8>>::empty() =~= frames);
    } else {
        let off = codes[i].0 as int;
        let hdr = off + codes[i].1;
        let t = classify_spec(codec, buf[hdr]);
        let cut = opens_unit(t, has_vcl) && off > start;
        let v2 = (if cut { false } else { has_vcl }) || t == NalFrameType::VclSlice;
        if cut {
            let u = buf.subrange(start, off);
            let e = Seq::<Seq<u8>>::empty();
            lemma_group_append(buf, codec, codes, i + 1, off, v2, off, frames.push(u));
            lemma_group_append(buf, codec, codes, i + 1, off, v2, off, e.push(u));
            let h = group_from(buf, codec, codes, i + 1, off, v2, 0, seq![]);
            assert(frames + (e.push(u) + h.0) =~= frames.push(u) + h.0);
        } else {
            lemma_group_append(buf, codec, codes, i + 1, start, v2, last, frames);
        }
    }
}

/// Grouping the bytes of `x` from `d` on, with the codes moved back by `d`,
/// hands out the same units, ending `d` earlier.
proof fn lemma_group_shift(
    x: Seq<u8>,
    d: int,
    codec: VideoCodec,
    cx: Seq<(usize, usize)>,
    ix: int,
    cy: Seq<(usize, usize)>,
    iy: int,
    start: int,
    has_vcl: bool,
    last: int,
    frames: Seq<Seq<u8>>,
)
    requires
        0 <= d <= x.len(),
        0 <= ix,
        0 <= iy,
        0 <= start,
        cx.len() - ix == cy.len() - iy,
        forall|k: int|
            iy <= k < cy.len() ==> (#[trigger] cy[k]).0 + d == cx[k - iy + ix].0 && cy[k].1 == cx[k
                - iy + ix].1,
    ensures
        ({
            let g = group_from(x.subrange(d, x.len() as int), codec, cy, iy, start, has_vcl, last, frames);
            group_from(x, codec, cx, ix, start + d, has_vcl, last + d, frames) == (g.0, g.1 + d)
        }),
    decreases cy.len() - iy,
{
    let y = x.subrange(d, x.len() as int);
    if iy < cy.len() {
        assert(cy[iy].0 + d == cx[ix].0 && cy[iy].1 == cx[ix].1);
        let offy = cy[iy].0 as int;
        let off = cx[ix].0 as int;
        let hdry = offy + cy[iy].1;
        if hdry < y.len() {
            assert(y[hdry] == x[off + cx[ix].1]);
            let t = classify_spec(codec, y[hdry]);
            let cut = opens_unit(t, has_vcl) && offy > start;
            let v2 = (if cut { false } else { has_vcl }) || t == NalFrameType::VclSlice;
            if cut {
                assert(x.subrange(start + d, off) =~= y.subrange(start, offy));
                lemma_group_shift(
                    x,
                    d,
                    codec,
                    cx,
                    ix + 1,
                    cy,
                    iy + 1,
                    offy,
                    v2,
                    offy,
                    frames.push(y.subrange(start, offy)),
                );
            } else {
                lemma_group_shift(x, d, codec, cx, ix + 1, cy, iy + 1, start, v2, last, frames);
            }
        }
    }
}

/// When grouping `b` hands out a unit, grouping `b` followed by more bytes
/// goes the same way up to the last unit that `b` completes: it then stands
/// at that unit's closing code `j`, as if starting afresh there.
proof fn lemma_group_prefix(
    b: Seq<u8>,
    c: Seq<u8>,
    codec: VideoCodec,
    cb: Seq<(usize, usize)>,
    cx: Seq<(usize, usize)>,
    i: int,
    start: int,
    has_vcl: bool,
    last: int,
    frames: Seq<Seq<u8>>,
) -> (j: int)
    requires
        cb.len() <= cx.len(),
        forall|k: int| 0 <= k < cb.len() ==> #[trigger] cx[k] == cb[k],
        0 <= i,
        0 <= start,
        group_from(b, codec, cb, i, start, has_vcl, last, frames).0.len() > frames.len(),
    ensures
        i <= j < cb.len(),
        cb[j].0 == group_from(b, codec, cb, i, start, has_vcl, last, frames).1,
        group_from(b + c, codec, cx, i, start, has_vcl, last, frames) == group_from(
            b + c,
            codec,
            cx,
            j,
            cb[j].0 as int,
            false,
            cb[j].0 as int,
            group_from(b, codec, cb, i, start, has_vcl, last, frames).0,
        ),
    decreases cb.len() - i,
{
    let x = b + c;
    assert(i < cb.len());
    assert(cx[i] == cb[i]);
    let off = cb[i].0 as int;
    let hdr = off + cb[i].1;
    assert(hdr < b.len());
    assert(x[hdr] == b[hdr]);
    let t = classify_spec(codec, b[hdr]);
    let cut = opens_unit(t, has_vcl) && off > start;
    let v2 = (if cut { false } else { has_vcl }) || t == NalFrameType::VclSlice;
    if cut {
        let u = b.subrange(start, off);
        assert(x.subrange(start, off) =~= u);
        let r = group_from(b, codec, cb, i + 1, off, v2, off, frames.push(u));
        if r.0.len() > frames.len() + 1 {
            lemma_group_prefix(b, c, codec, cb, cx, i + 1, off, v2, off, frames.push(u))
        } else {
            lemma_group_append(b, codec, cb, i + 1, off, v2, off, frames.push(u));
            let g = group_from(b, codec, cb, i + 1, off, v2, 0, seq![]);
            assert(g.0.len() == 0);
            assert(frames.push(u) + g.0 =~= frames.push(u));
            i
        }
    } else {
        lemma_group_prefix(b, c, codec, cb, cx, i + 1, start, v2, last, frames)
    }
}

/// Once `b` has completed a unit, the units of `b` followed by `c` are those
/// of `b`, then those of what stays of `b` followed by `c`.
proof fn lemma_extract_extend(b: Seq<u8>, c: Seq<u8>, codec: VideoCodec)
    requires
        (b + c).len() <= usize::MAX,
        extract_units(b, codec).0.len() > 0,
    ensures
        ({
            let (u, l) = extract_units(b, codec);
            let (v, m) = extract_units(b.subrange(l, b.len() as int) + c, codec);
            extract_units(b + c, codec) == (u + v, m + l)
        }),
{
    let x = b + c;
    let cb = start_codes(b);
    let cx = start_codes(x);
    let (u, l) = extract_units(b, codec);
    law_units_tile_stream(b, codec);
    let y = b.subrange(l, b.len() as int) + c;
    assert(y =~= x.subrange(l, x.len() as int));
    lemma_scan_extend(b, c, 0);
    assert(cb.len() >= 2);
    assert(cx[0] == cb[0]);
    let e = Seq::<Seq<u8>>::empty();
    let j = lemma_group_prefix(b, c, codec, cb, cx, 0, cb[0].0 as int, false, 0, e);
    assert(cx[j] == cb[j]);
    assert(cb[j].0 == l);
    lemma_scan_codes_in_bounds(x, 0);
    lemma_scan_suffix(x, 0, j);
    let cy = start_codes(y);
    lemma_scan_shift(x, l, 0);
    assert(cx.subrange(j, cx.len() as int) == scan_codes(x, l));
    assert(cy.len() == cx.len() - j);
    assert forall|k: int| 0 <= k < cy.len() implies (#[trigger] cy[k]).0 + l == cx[k - 0 + j].0
        && cy[k].1 == cx[k - 0 + j].1 by {
        assert(cx.subrange(j, cx.len() as int)[k] == cx[k + j]);
    }
    lemma_group_shift(x, l, codec, cx, j, cy, 0, 0, false, 0, u);
    assert(extract_units(x, codec) == group_from(x, codec, cx, j, l, false, l, u));
    lemma_group_append(y, codec, cy, 0, 0, false, 0, u);
    let h = group_from(y, codec, cy, 0, 0, false, 0, seq![]);
    assert(cy[0].0 == 0);
    if cy.len() < 2 {
        assert(group_from(y, codec, cy, 1, 0, false, 0, e) == (e, 0int));
        if cy[0].1 < y.len() {
            let t = classify_spec(codec, y[cy[0].1 as int]);
            assert(h == group_from(y, codec, cy, 1, 0, false || t == NalFrameType::VclSlice, 0, e));
        }
        assert(h == (e, 0int));
    }
    assert(extract_units(y, codec) == h);
    law_units_tile_stream(y, codec);
}

/// Law: how the stream is cut into chunks makes no difference. Feeding a
/// fresh extractor the chunks one call after the other hands out, over all
/// calls, exactly the units that one call with the whole stream hands out,
/// and leaves the same bytes buffered.
pub proof fn law_chunking_irrelevant(codec: VideoCodec, chunks: Seq<Seq<u8>>)
    requires
        flatten(chunks).len() <= usize::MAX,
    ensures
        ({
            let s = flatten(chunks);
            let (u, l) = extract_units(s, codec);
            extract_run(codec, chunks) == (u, s.subrange(l, s.len() as int))
        }),
    decreases chunks.len(),
{
    let s = flatten(chunks);
    if chunks.len() == 0 {
        assert(s =~= Seq::<u8>::empty());
        assert(start_codes(s) =~= Seq::<(usize, usize)>::empty());
        assert(s.subrange(0, 0) =~= Seq::<u8>::empty());
    } else {
        let prefix = chunks.drop_last();
        let c = chunks.last();
        let s0 = flatten(prefix);
        assert(s == s0 + c);
        law_chunking_irrelevant(codec, prefix);
        let (u0, l0) = extract_units(s0, codec);
        law_units_tile_stream(s0, codec);
        let b = s0.subrange(l0, s0.len() as int) + c;
        let (v, m) = extract_units(b, codec);
        law_units_tile_stream(b, codec);
        if u0.len() == 0 {
            assert(b =~= s);
            assert(u0 + v =~= v);
        } else {
            lemma_extract_extend(s0, c, codec);
            assert(b =~= s.subrange(l0, s.len() as int));
            assert(s.subrange(m + l0, s.len() as int) =~= b.subrange(m, b.len() as int));
        }
    }
}

/// Law: two chunkings of one stream give the same units over all calls and
/// leave the same bytes buffered.
pub proof fn law_same_stream_same_units(
    codec: VideoCodec,
    chunks_a: Seq<Seq<u8>>,
    chunks_b: Seq<Seq<u8>>,
)
    requires
        flatten(chunks_a) == flatten(chunks_b),
        flatten(chunks_a).len() <= usize::MAX,
    ensures
        extract_run(codec, chunks_a) == extract_run(codec, chunks_b),
{
    law_chunking_irrelevant(codec, chunks_a);
    law_chunking_irrelevant(codec, chunks_b);
}

/// Law: an AV1 extractor hands out nothing over any run of calls and keeps
/// every byte it was given.
pub proof fn law_av1_run_yields_nothing(chunks: Seq<Seq<u8>>)
    ensures
        extract_run(VideoCodec::AV1, chunks) == (Seq::<Seq<u8>>::empty(), flatten(chunks)),
    decreases chunks.len(),
{
    if chunks.len() > 0 {
        let prefix = chunks.drop_last();
        law_av1_run_yields_nothing(prefix);
        let b = flatten(prefix) + chunks.last();
        law_av1_never_splits(b);
        assert(b.subrange(0, b.len() as int) =~= b);
        assert(Seq::<Seq<u8>>::empty() + Seq::<Seq<u8>>::empty() =~= Seq::<Seq<u8>>::empty());
    }
}

} // verus!
