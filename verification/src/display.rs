//! The clients' video path after the network: the decoder's command line,
//! the raw YUV 4:2:0 frames it writes, and the single-frame slot between
//! decoder and window.

use crate::capture::{
    codec_number, decimal, ffmpeg_arg_list, push_str, resolution_dimensions, string_views,
    CaptureConfig, VideoCodec,
};
use vstd::prelude::*;

verus! {

/// A decoded frame in planar YUV 4:2:0 (I420): the Y plane, then U, then V.
pub struct YuvFrame {
    pub width: usize,
    pub height: usize,
    pub data: Vec<u8>,
}

/// Bytes of one I420 frame of `width` x `height` pixels.
pub open spec fn i420_frame_size(width: nat, height: nat) -> nat {
    (width * height * 3) / 2
}

/// The number of bytes the decoder writes per frame.
pub fn yuv_frame_size(width: usize, height: usize) -> (n: usize)
    requires
        width * height * 3 <= usize::MAX,
    ensures
        n == i420_frame_size(width as nat, height as nat),
{
    assert(width * height <= width * height * 3) by (nonlinear_arith);
    (width * height * 3) / 2
}

/// The decoder's input format for a codec number (1 = HEVC, otherwise
/// H.264).
pub open spec fn decoder_format(codec: u8) -> Seq<char> {
    if codec == 1 {
        "hevc"@
    } else {
        "h264"@
    }
}

/// The decoder's arguments: low-delay decoding of the elementary stream on
/// stdin into raw I420 frames on stdout.
pub open spec fn decoder_arg_list(codec: u8) -> Seq<Seq<char>> {
    seq![
        "-loglevel"@, "error"@, "-flags"@, "low_delay"@, "-fflags"@, "nobuffer"@, "-f"@,
        decoder_format(codec), "-i"@, "pipe:0"@, "-f"@, "rawvideo"@, "-pix_fmt"@, "yuv420p"@,
        "pipe:1"@,
    ]
}

/// The decoder's arguments for codec number `codec`.
pub fn decoder_args(codec: u8) -> (args: Vec<String>)
    ensures
        string_views(args@) == decoder_arg_list(codec),
{
    let mut args: Vec<String> = Vec::new();
    push_str(&mut args, "-loglevel");
    push_str(&mut args, "error");
    push_str(&mut args, "-flags");
    push_str(&mut args, "low_delay");
    push_str(&mut args, "-fflags");
    push_str(&mut args, "nobuffer");
    push_str(&mut args, "-f");
    if codec == 1 {
        push_str(&mut args, "hevc");
    } else {
        push_str(&mut args, "h264");
    }
    push_str(&mut args, "-i");
    push_str(&mut args, "pipe:0");
    push_str(&mut args, "-f");
    push_str(&mut args, "rawvideo");
    push_str(&mut args, "-pix_fmt");
    push_str(&mut args, "yuv420p");
    push_str(&mut args, "pipe:1");
    assert(string_views(args@) =~= decoder_arg_list(codec));
    args
}

/// Where the planes of an I420 frame lie in its buffer, and their strides.
#[derive(Debug, Clone, Copy, PartialEq, Eq, Structural)]
pub struct YuvPlanes {
    pub y_start: usize,
    pub y_end: usize,
    pub u_start: usize,
    pub u_end: usize,
    pub v_start: usize,
    pub v_end: usize,
    pub y_pitch: usize,
    pub uv_pitch: usize,
}

/// The planes of a `width` x `height` I420 frame held in `len` bytes: the
/// Y plane of `width * height` bytes, then U and V of a quarter of that
/// each; none when the buffer is too short.
pub open spec fn yuv_planes_spec(len: nat, width: u32, height: u32) -> Option<YuvPlanes> {
    let y = width * height;
    let uv = y / 4;
    if len >= y + uv * 2 {
        Some(
            YuvPlanes {
                y_start: 0,
                y_end: y as usize,
                u_start: y as usize,
                u_end: (y + uv) as usize,
                v_start: (y + uv) as usize,
                v_end: (y + uv * 2) as usize,
                y_pitch: width as usize,
                uv_pitch: (width / 2) as usize,
            },
        )
    } else {
        None
    }
}

/// The planes of a frame of `len` bytes shown in a `width` x `height`
/// window.
pub fn yuv_planes(len: usize, width: u32, height: u32) -> (r: Option<YuvPlanes>)
    requires
        width * height <= u32::MAX,
        width * height + (width * height / 4) * 2 <= usize::MAX,
    ensures
        r == yuv_planes_spec(len as nat, width, height),
{
    let y = (width * height) as usize;
    let uv = y / 4;
    if len >= y + uv * 2 {
        Some(
            YuvPlanes {
                y_start: 0,
                y_end: y,
                u_start: y,
                u_end: y + uv,
                v_start: y + uv,
                v_end: y + uv * 2,
                y_pitch: width as usize,
                uv_pitch: (width / 2) as usize,
            },
        )
    } else {
        None
    }
}

/// Whether the window needs a new texture for a `width` x `height` frame,
/// given the size of the current one.
pub fn needs_new_texture(current: Option<(u32, u32)>, width: u32, height: u32) -> (r: bool)
    ensures
        r == match current {
            Some((w, h)) => w != width || h != height,
            None => true,
        },
{
    match current {
        Some((w, h)) => w != width || h != height,
        None => true,
    }
}

/// What a slot holds after `value` is stored in it.
pub open spec fn slot_store<T>(held: Option<T>, value: T) -> Option<T> {
    Some(value)
}

/// What a take from a slot holding `held` gives, and what the slot then
/// holds.
pub open spec fn slot_take<T>(held: Option<T>) -> (Option<T>, Option<T>) {
    (held, None)
}

/// A slot holding at most the latest frame: a new frame replaces one not
/// yet shown, so the window never falls behind the decoder.
pub struct LatestSlot<T> {
    slot: Option<T>,
}

impl<T> LatestSlot<T> {
    /// What the slot holds.
    pub closed spec fn contents(&self) -> Option<T> {
        self.slot
    }

    /// An empty slot.
    pub fn new() -> (r: Self)
        ensures
            r.contents() is None,
    {
        LatestSlot { slot: None }
    }

    /// Puts `value` in the slot, dropping what it held.
    pub fn store(&mut self, value: T)
        ensures
            final(self).contents() == slot_store(old(self).contents(), value),
    {
        self.slot = Some(value);
    }

    /// Takes what the slot holds, leaving it empty.
    pub fn take(&mut self) -> (r: Option<T>)
        ensures
            (r, final(self).contents()) == slot_take(old(self).contents()),
    {
        self.slot.take()
    }
}

/// Law: whatever a slot held, after two frames are stored a take gives the
/// second, and a take that follows gives nothing.
pub proof fn law_latest_frame_wins<T>(held: Option<T>, first: T, second: T)
    ensures
        slot_take(slot_store(slot_store(held, first), second)).0 == Some(second),
        slot_take(slot_take(slot_store(slot_store(held, first), second)).1).0 is None,
{
}

/// The address the window client's demuxer reads the stream from.
pub open spec fn stream_url_spec(server_ip: Seq<char>) -> Seq<char> {
    "tcp://"@ + server_ip + ":5000?nodelay=1&buffer_size=65536"@
}

/// The stream address for `server_ip`.
pub fn stream_url(server_ip: &str) -> (url: String)
    ensures
        url@ == stream_url_spec(server_ip@),
{
    String::from_str("tcp://").concat(server_ip).concat(":5000?nodelay=1&buffer_size=65536")
}

/// The demuxer options for low latency: no buffering, a small probe and no
/// stream analysis.
pub open spec fn low_latency_option_list() -> Seq<(Seq<char>, Seq<char>)> {
    seq![
        ("flags"@, "low_delay"@),
        ("fflags"@, "nobuffer"@),
        ("probesize"@, "65536"@),
        ("analyzeduration"@, "0"@),
    ]
}

/// The demuxer options (see `low_latency_option_list`).
pub fn low_latency_options() -> (opts: Vec<(&'static str, &'static str)>)
    ensures
        opts@.len() == 4,
        forall|k: int|
            0 <= k < 4 ==> (#[trigger] opts@[k]).0@ == low_latency_option_list()[k].0
                && opts@[k].1@ == low_latency_option_list()[k].1,
{
    let opts = vec![
        ("flags", "low_delay"),
        ("fflags", "nobuffer"),
        ("probesize", "65536"),
        ("analyzeduration", "0"),
    ];
    opts
}

/// Law: the client's decoder reads the stream that the server's encoder
/// writes. For H.264 the server encodes with `h264_vaapi` and writes a raw
/// `h264` stream to stdout; for HEVC, `hevc_vaapi` and `hevc`. The decoder
/// for the codec number that the packets carry reads exactly that format
/// from stdin and writes raw `yuv420p` (I420) frames to stdout. The server
/// scales the capture to the resolution's width and height.
pub proof fn law_decoder_reads_what_encoder_writes(c: CaptureConfig)
    requires
        c.codec != VideoCodec::AV1,
    ensures
        ({
            let enc = ffmpeg_arg_list(c);
            let dec = decoder_arg_list(codec_number(c.codec));
            let (w, h) = resolution_dimensions(c.resolution);
            &&& enc.len() == if c.codec == VideoCodec::H264 { 49int } else { 47int }
            &&& enc[21] == "-c:v"@
            &&& enc[22] == if c.codec == VideoCodec::H264 { "h264_vaapi"@ } else { "hevc_vaapi"@ }
            &&& enc[enc.len() - 3] == "-f"@
            &&& enc[enc.len() - 2] == if c.codec == VideoCodec::H264 { "h264"@ } else { "hevc"@ }
            &&& enc[enc.len() - 1] == "pipe:1"@
            &&& enc[19] == "-vf"@
            &&& enc[20] == "hwmap=derive_device=vaapi,scale_vaapi=w="@ + decimal(w as nat) + ":h="@
                + decimal(h as nat) + ":format=nv12"@
            &&& dec[6] == "-f"@ && dec[7] == enc[enc.len() - 2]
            &&& dec[8] == "-i"@ && dec[9] == "pipe:0"@
            &&& dec[10] == "-f"@ && dec[11] == "rawvideo"@
            &&& dec[12] == "-pix_fmt"@ && dec[13] == "yuv420p"@
            &&& dec[14] == "pipe:1"@
        }),
{
}

} // verus!
