//! Splits an Annex-B byte stream (H.264 or HEVC) into complete access units.
//!
//! Bytes arrive in arbitrary chunks. Start codes (`00 00 01` or `00 00 00 01`)
//! delimit NAL units; a new access unit begins at an access unit delimiter, or
//! at a sequence header or a slice once the current unit already holds a slice.
//! Only complete units are handed out: the tail after the last boundary stays
//! buffered until later bytes close it.

use crate::capture::VideoCodec;
use vstd::prelude::*;

verus! {

/// What a NAL unit means for access-unit boundaries.
#[derive(Debug, Clone, Copy, PartialEq, Eq, Structural)]
pub enum NalFrameType {
    /// Access unit delimiter.
    Aud,
    /// VPS (HEVC) or SPS (H.264).
    SequenceStart,
    /// A coded slice of a picture.
    VclSlice,
    /// PPS, SEI and anything else.
    Other,
}

/// Kind of the NAL unit whose header byte is `b`, for `codec`.
pub open spec fn classify_spec(codec: VideoCodec, b: u8) -> NalFrameType {
    match codec {
        VideoCodec::H264 => {
            let t = b % 32;
            if t == 9 {
                NalFrameType::Aud
            } else if t == 7 {
                NalFrameType::SequenceStart
            } else if 1 <= t <= 5 {
                NalFrameType::VclSlice
            } else {
                NalFrameType::Other
            }
        },
        VideoCodec::HEVC => {
            let t = (b / 2) % 64;
            if t == 35 {
                NalFrameType::Aud
            } else if t == 32 || t == 33 {
                NalFrameType::SequenceStart
            } else if t <= 31 {
                NalFrameType::VclSlice
            } else {
                NalFrameType::Other
            }
        },
        VideoCodec::AV1 => NalFrameType::Other,
    }
}

/// Start codes found by a left-to-right scan of `buf` from `i`: each is
/// (offset, length). A four-byte code is preferred over the three-byte code it
/// contains, and the scan resumes right after each code found.
pub open spec fn scan_codes(buf: Seq<u8>, i: int) -> Seq<(usize, usize)>
    decreases buf.len() - i,
{
    if i < 0 || i + 2 >= buf.len() {
        seq![]
    } else if buf[i] == 0 && buf[i + 1] == 0 && i + 3 < buf.len() && buf[i + 2] == 0 && buf[
        i + 3
    ] == 1 {
        seq![(i as usize, 4usize)] + scan_codes(buf, i + 4)
    } else if buf[i] == 0 && buf[i + 1] == 0 && buf[i + 2] == 1 {
        seq![(i as usize, 3usize)] + scan_codes(buf, i + 3)
    } else {
        scan_codes(buf, i + 1)
    }
}

/// All start codes of `buf`, in order.
pub open spec fn start_codes(buf: Seq<u8>) -> Seq<(usize, usize)> {
    scan_codes(buf, 0)
}

/// Whether a NAL unit of kind `t` opens a new access unit, given whether the
/// current one already holds a slice.
pub open spec fn opens_unit(t: NalFrameType, has_vcl: bool) -> bool {
    match t {
        NalFrameType::Aud => true,
        NalFrameType::SequenceStart => has_vcl,
        NalFrameType::VclSlice => has_vcl,
        NalFrameType::Other => false,
    }
}

/// Groups NAL units into access units, visiting the start codes from index
/// `i` on. `start` is where the current unit begins, `has_vcl` whether it holds
/// a slice, `last` the end of the last unit handed out (0 if none) and
/// `frames` the units handed out so far. Stops at the first start code whose
/// NAL header byte is not yet buffered. Gives the units and `last`.
pub open spec fn group_from(
    buf: Seq<u8>,
    codec: VideoCodec,
    codes: Seq<(usize, usize)>,
    i: int,
    start: int,
    has_vcl: bool,
    last: int,
    frames: Seq<Seq<u8>>,
) -> (Seq<Seq<u8>>, int)
    decreases codes.len() - i,
{
    if i < 0 || i >= codes.len() {
        (frames, last)
    } else {
        let off = codes[i].0 as int;
        let hdr = off + codes[i].1;
        if hdr >= buf.len() {
            (frames, last)
        } else {
            let t = classify_spec(codec, buf[hdr]);
            let cut = opens_unit(t, has_vcl) && off > start;
            group_from(
                buf,
                codec,
                codes,
                i + 1,
                if cut { off } else { start },
                (if cut { false } else { has_vcl }) || t == NalFrameType::VclSlice,
                if cut { off } else { last },
                if cut { frames.push(buf.subrange(start, off)) } else { frames },
            )
        }
    }
}

/// The complete access units in `buf` and the offset where the unfinished
/// tail begins (0 when no unit is complete).
pub open spec fn extract_units(buf: Seq<u8>, codec: VideoCodec) -> (Seq<Seq<u8>>, int) {
    let codes = start_codes(buf);
    if codes.len() < 2 {
        (seq![], 0)
    } else {
        group_from(buf, codec, codes, 0, codes[0].0 as int, false, 0, seq![])
    }
}

/// The byte contents of a sequence of byte vectors.
pub open spec fn views(v: Seq<Vec<u8>>) -> Seq<Seq<u8>> {
    Seq::new(v.len(), |k: int| v[k]@)
}

/// `c` = (offset, length) marks `00 00 01` or `00 00 00 01` in `buf`.
pub open spec fn is_start_code_at(buf: Seq<u8>, c: (usize, usize)) -> bool {
    ||| c.1 == 3 && c.0 + 3 <= buf.len() && buf[c.0 as int] == 0 && buf[c.0 + 1] == 0 && buf[c.0
        + 2] == 1
    ||| c.1 == 4 && c.0 + 4 <= buf.len() && buf[c.0 as int] == 0 && buf[c.0 + 1] == 0 && buf[c.0
        + 2] == 0 && buf[c.0 + 3] == 1
}

/// Every start code lies inside `buf`: its three or four bytes fit, and the
/// offsets strictly increase.
pub proof fn lemma_scan_codes_in_bounds(buf: Seq<u8>, i: int)
    requires
        0 <= i,
        buf.len() <= usize::MAX,
    ensures
        forall|k: int|
            0 <= k < scan_codes(buf, i).len() ==> {
                &&& i <= #[trigger] scan_codes(buf, i)[k].0
                &&& scan_codes(buf, i)[k].0 + scan_codes(buf, i)[k].1 <= buf.len()
                &&& scan_codes(buf, i)[k].0 + 2 < buf.len()
                &&& (scan_codes(buf, i)[k].1 == 3 || scan_codes(buf, i)[k].1 == 4)
            },
        forall|k: int, l: int|
            0 <= k < l < scan_codes(buf, i).len() ==> #[trigger] scan_codes(buf, i)[k].0
                + scan_codes(buf, i)[k].1 <= #[trigger] scan_codes(buf, i)[l].0,
        forall|k: int|
            0 <= k < scan_codes(buf, i).len() ==> is_start_code_at(
                buf,
                #[trigger] scan_codes(buf, i)[k],
            ),
    decreases buf.len() - i,
{
    if i + 2 >= buf.len() {
    } else if buf[i] == 0 && buf[i + 1] == 0 && i + 3 < buf.len() && buf[i + 2] == 0 && buf[i + 3]
        == 1 {
        lemma_scan_codes_in_bounds(buf, i + 4);
        let s = scan_codes(buf, i);
        let r = scan_codes(buf, i + 4);
        assert(s == seq![(i as usize, 4usize)] + r);
        assert forall|k: int, l: int| 0 <= k < l < s.len() implies #[trigger] s[k].0 + s[k].1 <= #[trigger] s[l].0 by {
            assert(s[l] == r[l - 1]);
            if k > 0 {
                assert(s[k] == r[k - 1]);
            }
        }
        assert forall|k: int| 0 <= k < s.len() implies i <= #[trigger] s[k].0 && s[k].0 + s[k].1 <= buf.len()
            && s[k].0 + 2 < buf.len() && (s[k].1 == 3 || s[k].1 == 4) && is_start_code_at(buf, s[k]) by {
            if k > 0 {
                assert(s[k] == r[k - 1]);
            }
        }
    } else if buf[i] == 0 && buf[i + 1] == 0 && buf[i + 2] == 1 {
        lemma_scan_codes_in_bounds(buf, i + 3);
        let s = scan_codes(buf, i);
        let r = scan_codes(buf, i + 3);
        assert(s == seq![(i as usize, 3usize)] + r);
        assert forall|k: int, l: int| 0 <= k < l < s.len() implies #[trigger] s[k].0 + s[k].1 <= #[trigger] s[l].0 by {
            assert(s[l] == r[l - 1]);
            if k > 0 {
                assert(s[k] == r[k - 1]);
            }
        }
        assert forall|k: int| 0 <= k < s.len() implies i <= #[trigger] s[k].0 && s[k].0 + s[k].1 <= buf.len()
            && s[k].0 + 2 < buf.len() && (s[k].1 == 3 || s[k].1 == 4) && is_start_code_at(buf, s[k]) by {
            if k > 0 {
                assert(s[k] == r[k - 1]);
            }
        }
    } else {
        lemma_scan_codes_in_bounds(buf, i + 1);
        assert(scan_codes(buf, i) == scan_codes(buf, i + 1));
    }
}

/// The bytes of a sequence of units, one after the other.
pub open spec fn concat_units(units: Seq<Seq<u8>>) -> Seq<u8>
    decreases units.len(),
{
    if units.len() == 0 {
        seq![]
    } else {
        concat_units(units.drop_last()) + units.last()
    }
}

/// `u` opens with a three- or four-byte start code.
pub open spec fn begins_with_start_code(u: Seq<u8>) -> bool {
    ||| u.len() >= 3 && u[0] == 0 && u[1] == 0 && u[2] == 1
    ||| u.len() >= 4 && u[0] == 0 && u[1] == 0 && u[2] == 0 && u[3] == 1
}

/// The units handed out so far tile the stream from `first` up to `start`.
pub open spec fn tiles_so_far(
    buf: Seq<u8>,
    first: int,
    start: int,
    last: int,
    frames: Seq<Seq<u8>>,
) -> bool {
    ||| frames.len() == 0 && last == 0 && start == first
    ||| frames.len() > 0 && last == start && first < start <= buf.len() && concat_units(frames)
        == buf.subrange(first, start)
}

proof fn lemma_group_tiles(
    buf: Seq<u8>,
    codec: VideoCodec,
    codes: Seq<(usize, usize)>,
    i: int,
    j: int,
    start: int,
    has_vcl: bool,
    last: int,
    frames: Seq<Seq<u8>>,
)
    requires
        codes == start_codes(buf),
        buf.len() <= usize::MAX,
        0 <= j <= i,
        j < codes.len(),
        start == codes[j].0,
        tiles_so_far(buf, codes[0].0 as int, start, last, frames),
        forall|k: int| 0 <= k < frames.len() ==> begins_with_start_code(#[trigger] frames[k]),
    ensures
        ({
            let (fr, l) = group_from(buf, codec, codes, i, start, has_vcl, last, frames);
            &&& (fr.len() == 0 && l == 0) || (fr.len() > 0 && codes[0].0 < l <= buf.len()
                && concat_units(fr) == buf.subrange(codes[0].0 as int, l))
            &&& forall|k: int| 0 <= k < fr.len() ==> begins_with_start_code(#[trigger] fr[k])
            &&& fr.len() > 0 ==> begins_with_start_code(buf.subrange(l, buf.len() as int))
        }),
    decreases codes.len() - i,
{
    lemma_scan_codes_in_bounds(buf, 0);
    if frames.len() > 0 {
        assert(is_start_code_at(buf, codes[j]));
        assert(begins_with_start_code(buf.subrange(start, buf.len() as int)));
    }
    if i >= codes.len() {
    } else {
        let off = codes[i].0 as int;
        let hdr = off + codes[i].1;
        if hdr >= buf.len() {
        } else {
            let t = classify_spec(codec, buf[hdr]);
            let cut = opens_unit(t, has_vcl) && off > start;
            let vcl2 = (if cut { false } else { has_vcl }) || t == NalFrameType::VclSlice;
            if cut {
                assert(j < i);
                let u = buf.subrange(start, off);
                let fr2 = frames.push(u);
                assert(is_start_code_at(buf, codes[j]));
                assert(begins_with_start_code(u));
                assert(fr2.drop_last() =~= frames);
                assert(concat_units(fr2) == concat_units(frames) + u);
                if frames.len() == 0 {
                    assert(concat_units(frames) =~= seq![]);
                    assert(concat_units(fr2) =~= buf.subrange(codes[0].0 as int, off));
                } else {
                    assert(concat_units(fr2) =~= buf.subrange(codes[0].0 as int, off));
                }
                assert forall|k: int| 0 <= k < fr2.len() implies begins_with_start_code(
                    #[trigger] fr2[k],
                ) by {
                    if k < frames.len() {
                        assert(fr2[k] == frames[k]);
                    }
                }
                lemma_group_tiles(buf, codec, codes, i + 1, i, off, vcl2, off, fr2);
            } else {
                lemma_group_tiles(buf, codec, codes, i + 1, j, start, vcl2, last, frames);
            }
        }
    }
}

/// Law: what `push_bytes` hands out, followed by what stays buffered, is
/// exactly the stream received, from its first start code on; nothing is lost,
/// duplicated or reordered. Every access unit handed out opens with a start
/// code. When no unit is complete, everything stays buffered.
pub proof fn law_units_tile_stream(buf: Seq<u8>, codec: VideoCodec)
    requires
        buf.len() <= usize::MAX,
    ensures
        ({
            let (units, last) = extract_units(buf, codec);
            &&& units.len() == 0 ==> last == 0
            &&& 0 <= last <= buf.len()
            &&& units.len() > 0 ==> start_codes(buf)[0].0 < last && concat_units(units)
                == buf.subrange(start_codes(buf)[0].0 as int, last)
            &&& units.len() > 0 ==> concat_units(units) + buf.subrange(last, buf.len() as int)
                == buf.subrange(start_codes(buf)[0].0 as int, buf.len() as int)
            &&& forall|k: int| 0 <= k < units.len() ==> begins_with_start_code(#[trigger] units[k])
            &&& units.len() > 0 ==> begins_with_start_code(buf.subrange(last, buf.len() as int))
        }),
{
    let codes = start_codes(buf);
    if codes.len() >= 2 {
        lemma_scan_codes_in_bounds(buf, 0);
        lemma_group_tiles(buf, codec, codes, 0, 0, codes[0].0 as int, false, 0, seq![]);
        let (units, last) = extract_units(buf, codec);
        if units.len() > 0 {
            assert(concat_units(units) + buf.subrange(last, buf.len() as int) =~= buf.subrange(
                codes[0].0 as int,
                buf.len() as int,
            ));
        }
    }
}

proof fn lemma_group_av1(
    buf: Seq<u8>,
    codes: Seq<(usize, usize)>,
    i: int,
    start: int,
    has_vcl: bool,
    last: int,
    frames: Seq<Seq<u8>>,
)
    ensures
        group_from(buf, VideoCodec::AV1, codes, i, start, has_vcl, last, frames) == (frames, last),
    decreases codes.len() - i,
{
    if 0 <= i < codes.len() && codes[i].0 + codes[i].1 < buf.len() {
        lemma_group_av1(buf, codes, i + 1, start, has_vcl, last, frames);
    }
}

/// Law: an AV1 stream is never split: whatever has been buffered, no access
/// unit is complete and everything stays buffered, so every `push_bytes` of
/// an AV1 extractor gives nothing.
pub proof fn law_av1_never_splits(buf: Seq<u8>)
    ensures
        extract_units(buf, VideoCodec::AV1) == (Seq::<Seq<u8>>::empty(), 0int),
{
    let codes = start_codes(buf);
    if codes.len() >= 2 {
        lemma_group_av1(buf, codes, 0, codes[0].0 as int, false, 0, seq![]);
    }
}

/// Law: how NAL units are told apart. In H.264 the type is the low five
/// bits of the header byte: 9 is an access unit delimiter, 7 a sequence
/// parameter set, 1 to 5 coded slices (5 being an IDR slice). In HEVC the
/// type is bits 1 to 6: 35 is a delimiter, 32 and 33 the video and
/// sequence parameter sets, 0 to 31 coded slices. PPS (H.264 8, HEVC 34)
/// and SEI (H.264 6, HEVC 39 and 40) open nothing; AV1 has no NAL types.
pub proof fn law_nal_types(b: u8)
    ensures
        ({
            let t = b & 0x1F;
            &&& t == 9 ==> classify_spec(VideoCodec::H264, b) == NalFrameType::Aud
            &&& t == 7 ==> classify_spec(VideoCodec::H264, b) == NalFrameType::SequenceStart
            &&& 1 <= t <= 5 ==> classify_spec(VideoCodec::H264, b) == NalFrameType::VclSlice
            &&& (t == 0 || t == 6 || t == 8 || t >= 10) ==> classify_spec(VideoCodec::H264, b)
                == NalFrameType::Other
        }),
        ({
            let t = (b >> 1) & 0x3F;
            &&& t == 35 ==> classify_spec(VideoCodec::HEVC, b) == NalFrameType::Aud
            &&& (t == 32 || t == 33) ==> classify_spec(VideoCodec::HEVC, b)
                == NalFrameType::SequenceStart
            &&& t <= 31 ==> classify_spec(VideoCodec::HEVC, b) == NalFrameType::VclSlice
            &&& (t == 34 || t >= 36) ==> classify_spec(VideoCodec::HEVC, b) == NalFrameType::Other
        }),
        classify_spec(VideoCodec::AV1, b) == NalFrameType::Other,
{
    assert(b & 0x1F == b % 32) by (bit_vector);
    assert((b >> 1) & 0x3F == (b / 2) % 64) by (bit_vector);
}

/// Extracts complete access units from a growing Annex-B stream.
pub struct NalExtractor {
    codec: VideoCodec,
    buffer: Vec<u8>,
}

impl NalExtractor {
    /// The codec whose NAL header layout is used.
    pub closed spec fn codec_spec(&self) -> VideoCodec {
        self.codec
    }

    /// The bytes received and not yet handed out.
    pub closed spec fn pending(&self) -> Seq<u8> {
        self.buffer@
    }

    /// Number of bytes buffered.
    pub fn buffered_len(&self) -> (n: usize)
        ensures
            n == self.pending().len(),
    {
        self.buffer.len()
    }

    /// An extractor for `codec` with nothing buffered.
    pub fn new(codec: VideoCodec) -> (r: Self)
        ensures
            r.codec_spec() == codec,
            r.pending() == Seq::<u8>::empty(),
    {
        Self { codec, buffer: Vec::with_capacity(131072) }
    }

    /// Kind of the NAL unit whose header byte is `first_byte`.
    pub fn classify_nal(&self, first_byte: u8) -> (t: NalFrameType)
        ensures
            t == classify_spec(self.codec_spec(), first_byte),
    {
        match self.codec {
            VideoCodec::H264 => {
                let nal_type = first_byte & 0x1F;
                assert(first_byte & 0x1F == first_byte % 32) by (bit_vector);
                if nal_type == 9 {
                    NalFrameType::Aud
                } else if nal_type == 7 {
                    NalFrameType::SequenceStart
                } else if 1 <= nal_type && nal_type <= 5 {
                    NalFrameType::VclSlice
                } else {
                    NalFrameType::Other
                }
            },
            VideoCodec::HEVC => {
                let nal_type = (first_byte >> 1) & 0x3F;
                assert((first_byte >> 1) & 0x3F == (first_byte / 2) % 64) by (bit_vector);
                if nal_type == 35 {
                    NalFrameType::Aud
                } else if nal_type == 32 || nal_type == 33 {
                    NalFrameType::SequenceStart
                } else if nal_type <= 31 {
                    NalFrameType::VclSlice
                } else {
                    NalFrameType::Other
                }
            },
            VideoCodec::AV1 => NalFrameType::Other,
        }
    }

    /// All start codes of the buffer, as (offset, length).
    pub fn find_start_codes(&self) -> (codes: Vec<(usize, usize)>)
        ensures
            codes@ == start_codes(self.pending()),
    {
        let mut codes: Vec<(usize, usize)> = Vec::new();
        let len = self.buffer.len();
        if len < 3 {
            return codes;
        }
        let ghost buf = self.buffer@;
        let mut i: usize = 0;
        while i < len - 2
            invariant
                len == buf.len(),
                buf == self.buffer@,
                len >= 3,
                i <= len,
                codes@ + scan_codes(buf, i as int) == scan_codes(buf, 0),
            decreases len - i,
        {
            if self.buffer[i] == 0 && self.buffer[i + 1] == 0 {
                if i + 3 < len && self.buffer[i + 2] == 0 && self.buffer[i + 3] == 1 {
                    proof {
                        assert(scan_codes(buf, i as int) == seq![(i, 4usize)] + scan_codes(
                            buf,
                            i + 4,
                        ));
                    }
                    codes.push((i, 4));
                    assert(codes@ + scan_codes(buf, i + 4) =~= scan_codes(buf, 0));
                    i += 4;
                    continue;
                }
                if self.buffer[i + 2] == 1 {
                    proof {
                        assert(scan_codes(buf, i as int) == seq![(i, 3usize)] + scan_codes(
                            buf,
                            i + 3,
                        ));
                    }
                    codes.push((i, 3));
                    assert(codes@ + scan_codes(buf, i + 3) =~= scan_codes(buf, 0));
                    i += 3;
                    continue;
                }
            }
            i += 1;
        }
        assert(scan_codes(buf, i as int) =~= seq![]);
        assert(codes@ =~= scan_codes(buf, 0));
        codes
    }

    /// Appends `data` to the buffer and hands out every access unit that is
    /// now complete, in stream order; their bytes leave the buffer (together
    /// with anything before the first start code).
    pub fn push_bytes(&mut self, data: &[u8]) -> (frames: Vec<Vec<u8>>)
        requires
            old(self).pending().len() + data@.len() <= usize::MAX,
        ensures
            final(self).codec_spec() == old(self).codec_spec(),
            ({
                let b = old(self).pending() + data@;
                let (units, last) = extract_units(b, old(self).codec_spec());
                &&& views(frames@) == units
                &&& final(self).pending() == b.subrange(last, b.len() as int)
            }),
    {
        self.buffer.extend_from_slice(data);
        let ghost buf = self.buffer@;
        assert(buf =~= old(self).buffer@ + data@);
        let mut ready_frames: Vec<Vec<u8>> = Vec::new();

        let start_codes = self.find_start_codes();
        if start_codes.len() < 2 {
            assert(buf.subrange(0, buf.len() as int) =~= buf);
            return ready_frames;
        }
        proof {
            lemma_scan_codes_in_bounds(buf, 0);
        }

        let mut current_frame_start = start_codes[0].0;
        let mut current_has_vcl = false;
        let mut last_emitted_offset: usize = 0;
        let codec = self.codec;

        let mut i: usize = 0;
        assert(views(ready_frames@) =~= Seq::<Seq<u8>>::empty());
        while i < start_codes.len()
            invariant
                buf == self.buffer@,
                buf.len() <= usize::MAX,
                codec == self.codec,
                start_codes@ == scan_codes(buf, 0),
                start_codes@.len() >= 2,
                0 <= i <= start_codes@.len(),
                forall|k: int|
                    0 <= k < start_codes@.len() ==> {
                        &&& #[trigger] start_codes@[k].0 + start_codes@[k].1 <= buf.len()
                        &&& start_codes@[k].0 + 2 < buf.len()
                    },
                current_frame_start < buf.len(),
                last_emitted_offset <= buf.len(),
                extract_units(buf, codec) == group_from(
                    buf,
                    codec,
                    start_codes@,
                    i as int,
                    current_frame_start as int,
                    current_has_vcl,
                    last_emitted_offset as int,
                    views(ready_frames@),
                ),
            ensures
                buf == self.buffer@,
                last_emitted_offset <= buf.len(),
                extract_units(buf, codec) == (views(ready_frames@), last_emitted_offset as int),
            decreases start_codes.len() - i,
        {
            let code = start_codes[i];
            let code_offset = code.0;
            let code_len = code.1;
            assert(code_offset + code_len <= buf.len());
            assert(start_codes@[i as int].0 + start_codes@[i as int].1 <= buf.len());
            let nal_header_idx = code_offset + code_len;
            if nal_header_idx >= self.buffer.len() {
                break;
            }
            let nal_byte = self.buffer[nal_header_idx];
            let nal_type = self.classify_nal(nal_byte);

            let is_boundary = match nal_type {
                NalFrameType::Aud => true,
                NalFrameType::SequenceStart => current_has_vcl,
                NalFrameType::VclSlice => current_has_vcl,
                NalFrameType::Other => false,
            };

            let ghost old_frames = views(ready_frames@);
            if is_boundary && code_offset > current_frame_start {
                let mut frame_bytes: Vec<u8> = Vec::new();
                frame_bytes.extend_from_slice(
                    &self.buffer.as_slice()[current_frame_start..code_offset],
                );
                assert(frame_bytes@ =~= buf.subrange(
                    current_frame_start as int,
                    code_offset as int,
                ));
                if !frame_bytes.is_empty() {
                    ready_frames.push(frame_bytes);
                    last_emitted_offset = code_offset;
                }
                assert(views(ready_frames@) =~= old_frames.push(
                    buf.subrange(current_frame_start as int, code_offset as int),
                ));
                current_frame_start = code_offset;
                current_has_vcl = false;
            }
            if nal_type == NalFrameType::VclSlice {
                current_has_vcl = true;
            }
            i += 1;
        }
        if last_emitted_offset > 0 {
            let tail = self.buffer.split_off(last_emitted_offset);
            self.buffer = tail;
        } else {
            assert(buf.subrange(0, buf.len() as int) =~= buf);
        }
        ready_frames
    }
}

} // verus!
