//! Video codecs, output resolutions and the configuration of the capture
//! pipeline.

use vstd::prelude::*;

verus! {

/// Video codecs known to the server.
#[derive(Debug, Clone, Copy, PartialEq, Eq, Structural)]
pub enum VideoCodec {
    H264,
    HEVC,
    AV1,
}

/// Output resolutions known to the server.
#[derive(Debug, Clone, Copy, PartialEq, Eq, Structural)]
pub enum VideoResolution {
    /// 1080p (1920x1080)
    FHD,
    /// 2K (2560x1440)
    QHD,
    /// 4K (3840x2160)
    UHD,
}

/// Width and height of a resolution.
pub open spec fn resolution_dimensions(r: VideoResolution) -> (u32, u32) {
    match r {
        VideoResolution::FHD => (1920, 1080),
        VideoResolution::QHD => (2560, 1440),
        VideoResolution::UHD => (3840, 2160),
    }
}

/// Display name of a resolution.
pub open spec fn resolution_name(r: VideoResolution) -> Seq<char> {
    match r {
        VideoResolution::FHD => "1080p (FHD)"@,
        VideoResolution::QHD => "2K (1440p)"@,
        VideoResolution::UHD => "4K (2160p)"@,
    }
}

impl VideoResolution {
    /// Width and height in pixels.
    pub fn dimensions(&self) -> (r: (u32, u32))
        ensures
            r == resolution_dimensions(*self),
    {
        match self {
            VideoResolution::FHD => (1920, 1080),
            VideoResolution::QHD => (2560, 1440),
            VideoResolution::UHD => (3840, 2160),
        }
    }

    /// Human-readable name.
    pub fn name(&self) -> (r: &'static str)
        ensures
            r@ == resolution_name(*self),
    {
        match self {
            VideoResolution::FHD => "1080p (FHD)",
            VideoResolution::QHD => "2K (1440p)",
            VideoResolution::UHD => "4K (2160p)",
        }
    }
}

/// The codec number that packets carry: 0 = H.264, 1 = HEVC, 2 = AV1.
pub open spec fn codec_number(c: VideoCodec) -> u8 {
    match c {
        VideoCodec::H264 => 0,
        VideoCodec::HEVC => 1,
        VideoCodec::AV1 => 2,
    }
}

/// The codec number that packets carry for `codec`.
pub fn codec_id(codec: VideoCodec) -> (r: u8)
    ensures
        r == codec_number(codec),
{
    match codec {
        VideoCodec::H264 => 0u8,
        VideoCodec::HEVC => 1u8,
        VideoCodec::AV1 => 2u8,
    }
}

/// The character of decimal digit `d`.
pub open spec fn digit_char(d: nat) -> char {
    (48 + d) as char
}

/// Decimal notation of `n`, as `u32::to_string` writes it.
pub open spec fn decimal(n: nat) -> Seq<char>
    decreases n,
{
    if n < 10 {
        seq![digit_char(n)]
    } else {
        decimal(n / 10).push(digit_char(n % 10))
    }
}

/// The one-character string of decimal digit `d`.
fn digit_str(d: u32) -> (r: &'static str)
    requires
        d < 10,
    ensures
        r@ == seq![digit_char(d as nat)],
{
    proof {
        reveal_strlit("0");
        reveal_strlit("1");
        reveal_strlit("2");
        reveal_strlit("3");
        reveal_strlit("4");
        reveal_strlit("5");
        reveal_strlit("6");
        reveal_strlit("7");
        reveal_strlit("8");
        reveal_strlit("9");
    }
    if d == 0 {
        "0"
    } else if d == 1 {
        "1"
    } else if d == 2 {
        "2"
    } else if d == 3 {
        "3"
    } else if d == 4 {
        "4"
    } else if d == 5 {
        "5"
    } else if d == 6 {
        "6"
    } else if d == 7 {
        "7"
    } else if d == 8 {
        "8"
    } else {
        "9"
    }
}

/// Decimal notation of `n`.
pub fn decimal_string(n: u32) -> (r: String)
    ensures
        r@ == decimal(n as nat),
    decreases n,
{
    if n < 10 {
        String::from_str(digit_str(n))
    } else {
        let prefix = decimal_string(n / 10);
        let r = prefix.concat(digit_str(n % 10));
        assert(r@ =~= decimal(n as nat));
        r
    }
}

/// Configuration of the screen capture pipeline.
pub struct CaptureConfig {
    /// DRM/KMS device (e.g. "/dev/dri/card1").
    pub drm_device: String,
    /// VAAPI render device (e.g. "/dev/dri/renderD128").
    pub render_device: String,
    /// Frames per second.
    pub framerate: u32,
    /// Target bitrate (e.g. "8M").
    pub bitrate: String,
    /// Frames between keyframes.
    pub gop_size: u32,
    /// Codec to encode with.
    pub codec: VideoCodec,
    /// Output resolution.
    pub resolution: VideoResolution,
}

/// What the machine says about the capture defaults: the `DRM_DEVICE`,
/// `RENDER_DEVICE` and `BITRATE` variables (when set) and which device nodes
/// exist.
pub struct CaptureEnvironment {
    pub drm_device: Option<String>,
    pub render_device: Option<String>,
    pub bitrate: Option<String>,
    pub card0_exists: bool,
    pub card1_exists: bool,
    pub render_d128_exists: bool,
    pub render_d129_exists: bool,
}

/// The DRM device chosen: the variable, else card0 when it is the only card,
/// else card1 when present, else card0.
pub open spec fn chosen_drm_device(env: CaptureEnvironment) -> Seq<char> {
    match env.drm_device {
        Some(d) => d@,
        None => if env.card0_exists && !env.card1_exists {
            "/dev/dri/card0"@
        } else if env.card1_exists {
            "/dev/dri/card1"@
        } else {
            "/dev/dri/card0"@
        },
    }
}

/// The render device chosen: the variable, else renderD128 when present,
/// else renderD129 when present, else renderD128.
pub open spec fn chosen_render_device(env: CaptureEnvironment) -> Seq<char> {
    match env.render_device {
        Some(d) => d@,
        None => if env.render_d128_exists {
            "/dev/dri/renderD128"@
        } else if env.render_d129_exists {
            "/dev/dri/renderD129"@
        } else {
            "/dev/dri/renderD128"@
        },
    }
}

/// The bitrate chosen: the variable, else "20M".
pub open spec fn chosen_bitrate(env: CaptureEnvironment) -> Seq<char> {
    match env.bitrate {
        Some(b) => b@,
        None => "20M"@,
    }
}

impl CaptureConfig {
    /// The default configuration on a machine described by `env`: 60 fps, a
    /// keyframe every 30 frames, HEVC at 1080p.
    pub fn from_environment(env: CaptureEnvironment) -> (r: Self)
        ensures
            r.drm_device@ == chosen_drm_device(env),
            r.render_device@ == chosen_render_device(env),
            r.bitrate@ == chosen_bitrate(env),
            r.framerate == 60,
            r.gop_size == 30,
            r.codec == VideoCodec::HEVC,
            r.resolution == VideoResolution::FHD,
    {
        let drm_device = match env.drm_device {
            Some(d) => d,
            None => if env.card0_exists && !env.card1_exists {
                String::from_str("/dev/dri/card0")
            } else if env.card1_exists {
                String::from_str("/dev/dri/card1")
            } else {
                String::from_str("/dev/dri/card0")
            },
        };
        let render_device = match env.render_device {
            Some(d) => d,
            None => if env.render_d128_exists {
                String::from_str("/dev/dri/renderD128")
            } else if env.render_d129_exists {
                String::from_str("/dev/dri/renderD129")
            } else {
                String::from_str("/dev/dri/renderD128")
            },
        };
        let bitrate = match env.bitrate {
            Some(b) => b,
            None => String::from_str("20M"),
        };
        Self {
            drm_device,
            render_device,
            framerate: 60,
            bitrate,
            gop_size: 30,
            codec: VideoCodec::HEVC,
            resolution: VideoResolution::FHD,
        }
    }
}

/// Law: which devices the capture uses. A set variable always wins.
/// Otherwise the second card (`/dev/dri/card1`) is used whenever it exists
/// and the first (`card0`) when it does not; the render node is
/// `renderD128` unless only `renderD129` exists. The bitrate is `20M`
/// unless set.
pub proof fn law_capture_devices(env: CaptureEnvironment)
    ensures
        env.drm_device matches Some(d) ==> chosen_drm_device(env) == d@,
        env.drm_device is None && env.card1_exists ==> chosen_drm_device(env) == "/dev/dri/card1"@,
        env.drm_device is None && !env.card1_exists ==> chosen_drm_device(env) == "/dev/dri/card0"@,
        env.render_device matches Some(d) ==> chosen_render_device(env) == d@,
        env.render_device is None && (env.render_d128_exists || !env.render_d129_exists)
            ==> chosen_render_device(env) == "/dev/dri/renderD128"@,
        env.render_device is None && !env.render_d128_exists && env.render_d129_exists
            ==> chosen_render_device(env) == "/dev/dri/renderD129"@,
        env.bitrate is None ==> chosen_bitrate(env) == "20M"@,
{
}

/// Why the capture pipeline cannot be started.
#[derive(Debug, Clone, Copy, PartialEq, Eq, Structural)]
pub enum CaptureError {
    /// The hardware encoder of the server has no AV1.
    UnsupportedCodec,
}

/// The contents of a list of strings.
pub open spec fn string_views(v: Seq<String>) -> Seq<Seq<char>> {
    Seq::new(v.len(), |k: int| v[k]@)
}

/// Appends a copy of `s` to `v`.
pub fn push_str(v: &mut Vec<String>, s: &str)
    ensures
        string_views(final(v)@) == string_views(old(v)@).push(s@),
{
    v.push(String::from_str(s));
    assert(string_views(v@) =~= string_views(old(v)@).push(s@));
}

/// Appends `s` to `v`.
pub fn push_string(v: &mut Vec<String>, s: String)
    ensures
        string_views(final(v)@) == string_views(old(v)@).push(s@),
{
    let ghost sv = s@;
    v.push(s);
    assert(string_views(v@) =~= string_views(old(v)@).push(sv));
}

/// The GPU filter chain: map the frame to VAAPI and scale it to `w`x`h` NV12.
pub open spec fn filter_chain(w: u32, h: u32) -> Seq<char> {
    "hwmap=derive_device=vaapi,scale_vaapi=w="@ + decimal(w as nat) + ":h="@ + decimal(h as nat)
        + ":format=nv12"@
}

/// The H.264 level used at each resolution.
pub open spec fn h264_level(r: VideoResolution) -> Seq<char> {
    match r {
        VideoResolution::FHD => "41"@,
        VideoResolution::QHD => "51"@,
        VideoResolution::UHD => "52"@,
    }
}

/// The encoder part of the ffmpeg command line for `codec` (not AV1).
pub open spec fn encoder_args(c: CaptureConfig) -> Seq<Seq<char>> {
    let gop = decimal(c.gop_size as nat);
    let fps = decimal(c.framerate as nat);
    match c.codec {
        VideoCodec::H264 => seq![
            "-c:v"@, "h264_vaapi"@, "-profile:v"@, "constrained_baseline"@, "-level"@,
            h264_level(c.resolution), "-bf"@, "0"@, "-async_depth"@, "1"@, "-rc_mode"@, "CQP"@,
            "-qp"@, "22"@, "-g"@, gop, "-aud"@, "1"@, "-sei"@, "0"@, "-flush_packets"@, "1"@,
            "-r"@, fps, "-an"@, "-f"@, "h264"@, "pipe:1"@,
        ],
        _ => seq![
            "-c:v"@, "hevc_vaapi"@, "-profile:v"@, "main"@, "-bf"@, "0"@, "-async_depth"@, "1"@,
            "-rc_mode"@, "CQP"@, "-qp"@, "22"@, "-g"@, gop, "-aud"@, "1"@, "-sei"@, "0"@,
            "-flush_packets"@, "1"@, "-r"@, fps, "-an"@, "-f"@, "hevc"@, "pipe:1"@,
        ],
    }
}

/// The full ffmpeg command line: low-latency input from kmsgrab on the DRM
/// device, the GPU filter chain, then the encoder writing Annex-B to stdout.
pub open spec fn ffmpeg_arg_list(c: CaptureConfig) -> Seq<Seq<char>> {
    input_args(c) + encoder_args(c)
}

/// The input and filter part of the ffmpeg command line.
pub open spec fn input_args(c: CaptureConfig) -> Seq<Seq<char>> {
    let (w, h) = resolution_dimensions(c.resolution);
    seq![
        "-hide_banner"@, "-loglevel"@, "warning"@, "-threads"@, "1"@, "-filter_threads"@, "1"@,
        "-fflags"@, "+nobuffer+flush_packets"@, "-flags"@, "low_delay"@, "-f"@, "kmsgrab"@,
        "-device"@, c.drm_device@, "-framerate"@, decimal(c.framerate as nat), "-i"@,
        c.drm_device@, "-vf"@, filter_chain(w, h),
    ]
}

fn input_arg_vec(config: &CaptureConfig) -> (args: Vec<String>)
    ensures
        string_views(args@) == input_args(*config),
{
    let (width, height) = config.resolution.dimensions();
    let vf = String::from_str("hwmap=derive_device=vaapi,scale_vaapi=w=").concat(
        decimal_string(width).as_str(),
    ).concat(":h=").concat(decimal_string(height).as_str()).concat(":format=nv12");
    assert(vf@ =~= filter_chain(width, height));

    let mut args: Vec<String> = Vec::new();
    push_str(&mut args, "-hide_banner");
    push_str(&mut args, "-loglevel");
    push_str(&mut args, "warning");
    push_str(&mut args, "-threads");
    push_str(&mut args, "1");
    push_str(&mut args, "-filter_threads");
    push_str(&mut args, "1");
    push_str(&mut args, "-fflags");
    push_str(&mut args, "+nobuffer+flush_packets");
    push_str(&mut args, "-flags");
    push_str(&mut args, "low_delay");
    push_str(&mut args, "-f");
    push_str(&mut args, "kmsgrab");
    push_str(&mut args, "-device");
    push_str(&mut args, config.drm_device.as_str());
    push_str(&mut args, "-framerate");
    push_string(&mut args, decimal_string(config.framerate));
    push_str(&mut args, "-i");
    push_str(&mut args, config.drm_device.as_str());
    push_str(&mut args, "-vf");
    push_string(&mut args, vf);
    assert(string_views(args@) =~= input_args(*config));
    args
}

#[verifier::rlimit(30)]
fn encoder_arg_vec(config: &CaptureConfig) -> (args: Vec<String>)
    ensures
        string_views(args@) == encoder_args(*config),
{
    let mut args: Vec<String> = Vec::new();
    match config.codec {
        VideoCodec::H264 => {
            let level = match config.resolution {
                VideoResolution::FHD => "41",
                VideoResolution::QHD => "51",
                VideoResolution::UHD => "52",
            };
            push_str(&mut args, "-c:v");
            push_str(&mut args, "h264_vaapi");
            push_str(&mut args, "-profile:v");
            push_str(&mut args, "constrained_baseline");
            push_str(&mut args, "-level");
            push_str(&mut args, level);
            push_str(&mut args, "-bf");
            push_str(&mut args, "0");
            push_str(&mut args, "-async_depth");
            push_str(&mut args, "1");
            push_str(&mut args, "-rc_mode");
            push_str(&mut args, "CQP");
            push_str(&mut args, "-qp");
            push_str(&mut args, "22");
            push_str(&mut args, "-g");
            push_string(&mut args, decimal_string(config.gop_size));
            push_str(&mut args, "-aud");
            push_str(&mut args, "1");
            push_str(&mut args, "-sei");
            push_str(&mut args, "0");
            push_str(&mut args, "-flush_packets");
            push_str(&mut args, "1");
            push_str(&mut args, "-r");
            push_string(&mut args, decimal_string(config.framerate));
            push_str(&mut args, "-an");
            push_str(&mut args, "-f");
            push_str(&mut args, "h264");
            push_str(&mut args, "pipe:1");
        },
        _ => {
            push_str(&mut args, "-c:v");
            push_str(&mut args, "hevc_vaapi");
            push_str(&mut args, "-profile:v");
            push_str(&mut args, "main");
            push_str(&mut args, "-bf");
            push_str(&mut args, "0");
            push_str(&mut args, "-async_depth");
            push_str(&mut args, "1");
            push_str(&mut args, "-rc_mode");
            push_str(&mut args, "CQP");
            push_str(&mut args, "-qp");
            push_str(&mut args, "22");
            push_str(&mut args, "-g");
            push_string(&mut args, decimal_string(config.gop_size));
            push_str(&mut args, "-aud");
            push_str(&mut args, "1");
            push_str(&mut args, "-sei");
            push_str(&mut args, "0");
            push_str(&mut args, "-flush_packets");
            push_str(&mut args, "1");
            push_str(&mut args, "-r");
            push_string(&mut args, decimal_string(config.framerate));
            push_str(&mut args, "-an");
            push_str(&mut args, "-f");
            push_str(&mut args, "hevc");
            push_str(&mut args, "pipe:1");
        },
    }
    assert(string_views(args@) =~= encoder_args(*config));
    args
}

/// The ffmpeg arguments that capture the screen with `config`; AV1 is refused.
pub fn ffmpeg_args(config: &CaptureConfig) -> (r: Result<Vec<String>, CaptureError>)
    ensures
        r is Err <==> config.codec == VideoCodec::AV1,
        r matches Ok(args) ==> string_views(args@) == ffmpeg_arg_list(*config),
{
    if let VideoCodec::AV1 = config.codec {
        return Err(CaptureError::UnsupportedCodec);
    }
    let mut args = input_arg_vec(config);
    let mut tail = encoder_arg_vec(config);
    let ghost a = args@;
    let ghost t = tail@;
    args.append(&mut tail);
    assert(string_views(args@) =~= string_views(a) + string_views(t));
    Ok(args)
}

/// Where the VA-API drivers live when `LIBVA_DRIVERS_PATH` is not set: the
/// first of /usr/local/lib64/dri and /usr/lib64/dri-freeworld that exists.
pub open spec fn driver_path_choice(env_set: bool, local_exists: bool, freeworld_exists: bool) -> Option<Seq<char>> {
    if env_set {
        None
    } else if local_exists {
        Some("/usr/local/lib64/dri"@)
    } else if freeworld_exists {
        Some("/usr/lib64/dri-freeworld"@)
    } else {
        None
    }
}

/// The `LIBVA_DRIVERS_PATH` to give ffmpeg, if any.
pub fn libva_driver_path(env_set: bool, local_exists: bool, freeworld_exists: bool) -> (r: Option<
    &'static str,
>)
    ensures
        match (r, driver_path_choice(env_set, local_exists, freeworld_exists)) {
            (Some(p), Some(q)) => p@ == q,
            (None, None) => true,
            _ => false,
        },
{
    if env_set {
        None
    } else if local_exists {
        Some("/usr/local/lib64/dri")
    } else if freeworld_exists {
        Some("/usr/lib64/dri-freeworld")
    } else {
        None
    }
}

} // verus!
