//! Capture settings of the browser (WebRTC) variant of the server: software
//! H.264 (libx264) after GPU scaling, tuned for zero latency.

use crate::capture::{decimal, decimal_string, push_str, push_string, string_views};
use vstd::prelude::*;

verus! {

/// Configuration of the browser variant's capture pipeline.
pub struct CaptureConfig {
    /// DRM/KMS device (e.g. "/dev/dri/card1").
    pub drm_device: String,
    /// VAAPI render device (e.g. "/dev/dri/renderD128").
    pub render_device: String,
    /// Frames per second.
    pub framerate: u32,
    /// Target bitrate (e.g. "4M").
    pub bitrate: String,
    /// Frames between keyframes.
    pub gop_size: u32,
}

impl CaptureConfig {
    /// The defaults, given the `DRM_DEVICE` and `RENDER_DEVICE` variables
    /// (when set): card1, renderD128, 30 fps, 4M, a keyframe every 30 frames.
    pub fn from_environment(drm_device: Option<String>, render_device: Option<String>) -> (r: Self)
        ensures
            r.drm_device@ == match drm_device {
                Some(d) => d@,
                None => "/dev/dri/card1"@,
            },
            r.render_device@ == match render_device {
                Some(d) => d@,
                None => "/dev/dri/renderD128"@,
            },
            r.framerate == 30,
            r.bitrate@ == "4M"@,
            r.gop_size == 30,
    {
        Self {
            drm_device: match drm_device {
                Some(d) => d,
                None => String::from_str("/dev/dri/card1"),
            },
            render_device: match render_device {
                Some(d) => d,
                None => String::from_str("/dev/dri/renderD128"),
            },
            framerate: 30,
            bitrate: String::from_str("4M"),
            gop_size: 30,
        }
    }
}

/// The ffmpeg command line: VAAPI devices for the filters, kmsgrab input,
/// scaling on the GPU and download to memory, libx264 with zero-latency
/// tuning, H.264 Annex-B to stdout.
pub open spec fn ffmpeg_arg_list(c: CaptureConfig) -> Seq<Seq<char>> {
    seq![
        "-hide_banner"@, "-loglevel"@, "warning"@, "-init_hw_device"@, "drm=drm:"@
            + c.render_device@, "-init_hw_device"@, "vaapi=va@drm"@, "-filter_hw_device"@, "va"@,
        "-f"@, "kmsgrab"@, "-device"@, c.drm_device@, "-framerate"@, decimal(c.framerate as nat),
        "-i"@, c.drm_device@, "-vf"@,
        "hwmap=derive_device=vaapi,scale_vaapi=format=nv12,hwdownload,format=nv12"@, "-c:v"@,
        "libx264"@, "-preset"@, "ultrafast"@, "-tune"@, "zerolatency"@, "-profile:v"@,
        "baseline"@, "-pix_fmt"@, "yuv420p"@, "-b:v"@, c.bitrate@, "-maxrate"@, c.bitrate@,
        "-bufsize"@, "2M"@, "-g"@, decimal(c.gop_size as nat), "-x264-params"@,
        "keyint=30:min-keyint=30:scenecut=0"@, "-an"@, "-f"@, "h264"@, "pipe:1"@,
    ]
}

/// The ffmpeg arguments for `config`.
#[verifier::rlimit(30)]
pub fn ffmpeg_args(config: &CaptureConfig) -> (args: Vec<String>)
    ensures
        string_views(args@) == ffmpeg_arg_list(*config),
{
    let mut args: Vec<String> = Vec::new();
    push_str(&mut args, "-hide_banner");
    push_str(&mut args, "-loglevel");
    push_str(&mut args, "warning");
    push_str(&mut args, "-init_hw_device");
    push_string(&mut args, String::from_str("drm=drm:").concat(config.render_device.as_str()));
    push_str(&mut args, "-init_hw_device");
    push_str(&mut args, "vaapi=va@drm");
    push_str(&mut args, "-filter_hw_device");
    push_str(&mut args, "va");
    push_str(&mut args, "-f");
    push_str(&mut args, "kmsgrab");
    push_str(&mut args, "-device");
    push_str(&mut args, config.drm_device.as_str());
    push_str(&mut args, "-framerate");
    push_string(&mut args, decimal_string(config.framerate));
    push_str(&mut args, "-i");
    push_str(&mut args, config.drm_device.as_str());
    push_str(&mut args, "-vf");
    push_str(&mut args, "hwmap=derive_device=vaapi,scale_vaapi=format=nv12,hwdownload,format=nv12");
    push_str(&mut args, "-c:v");
    push_str(&mut args, "libx264");
    push_str(&mut args, "-preset");
    push_str(&mut args, "ultrafast");
    push_str(&mut args, "-tune");
    push_str(&mut args, "zerolatency");
    push_str(&mut args, "-profile:v");
    push_str(&mut args, "baseline");
    push_str(&mut args, "-pix_fmt");
    push_str(&mut args, "yuv420p");
    push_str(&mut args, "-b:v");
    push_str(&mut args, config.bitrate.as_str());
    push_str(&mut args, "-maxrate");
    push_str(&mut args, config.bitrate.as_str());
    push_str(&mut args, "-bufsize");
    push_str(&mut args, "2M");
    push_str(&mut args, "-g");
    push_string(&mut args, decimal_string(config.gop_size));
    push_str(&mut args, "-x264-params");
    push_str(&mut args, "keyint=30:min-keyint=30:scenecut=0");
    push_str(&mut args, "-an");
    push_str(&mut args, "-f");
    push_str(&mut args, "h264");
    push_str(&mut args, "pipe:1");
    assert(string_views(args@) =~= ffmpeg_arg_list(*config));
    args
}

/// Duration of one frame in milliseconds at `framerate` frames per second.
pub fn frame_duration_ms(framerate: u32) -> (ms: u64)
    requires
        framerate > 0,
    ensures
        ms == 1000int / (framerate as int),
{
    1000 / (framerate as u64)
}

} // verus!
