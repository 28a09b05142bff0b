use screen_share::capture::{
    codec_id, ffmpeg_args, libva_driver_path, CaptureConfig, CaptureEnvironment, CaptureError,
    VideoCodec, VideoResolution,
};

fn env() -> CaptureEnvironment {
    CaptureEnvironment {
        drm_device: None,
        render_device: None,
        bitrate: None,
        card0_exists: true,
        card1_exists: false,
        render_d128_exists: false,
        render_d129_exists: true,
    }
}

#[test]
fn resolutions() {
    assert_eq!(VideoResolution::FHD.dimensions(), (1920, 1080));
    assert_eq!(VideoResolution::QHD.dimensions(), (2560, 1440));
    assert_eq!(VideoResolution::UHD.dimensions(), (3840, 2160));
    assert_eq!(VideoResolution::QHD.name(), "2K (1440p)");
    assert_eq!(codec_id(VideoCodec::AV1), 2);
}

#[test]
fn capture_defaults_follow_the_machine() {
    let c = CaptureConfig::from_environment(env());
    assert_eq!(c.drm_device, "/dev/dri/card0");
    assert_eq!(c.render_device, "/dev/dri/renderD129");
    assert_eq!(c.bitrate, "20M");
    assert_eq!((c.framerate, c.gop_size), (60, 30));
    assert_eq!(c.codec, VideoCodec::HEVC);
    assert_eq!(c.resolution, VideoResolution::FHD);
    let mut e = env();
    e.card1_exists = true;
    e.bitrate = Some("8M".to_string());
    let c = CaptureConfig::from_environment(e);
    assert_eq!(c.drm_device, "/dev/dri/card1");
    assert_eq!(c.bitrate, "8M");
}

#[test]
fn ffmpeg_hevc_command_line() {
    let c = CaptureConfig::from_environment(env());
    let args = ffmpeg_args(&c).unwrap();
    let expected = vec![
        "-hide_banner", "-loglevel", "warning", "-threads", "1", "-filter_threads", "1",
        "-fflags", "+nobuffer+flush_packets", "-flags", "low_delay", "-f", "kmsgrab", "-device",
        "/dev/dri/card0", "-framerate", "60", "-i", "/dev/dri/card0", "-vf",
        "hwmap=derive_device=vaapi,scale_vaapi=w=1920:h=1080:format=nv12", "-c:v", "hevc_vaapi",
        "-profile:v", "main", "-bf", "0", "-async_depth", "1", "-rc_mode", "CQP", "-qp", "22",
        "-g", "30", "-aud", "1", "-sei", "0", "-flush_packets", "1", "-r", "60", "-an", "-f",
        "hevc", "pipe:1",
    ];
    assert_eq!(args, expected);
}

#[test]
fn ffmpeg_h264_level_by_resolution() {
    let mut c = CaptureConfig::from_environment(env());
    c.codec = VideoCodec::H264;
    c.resolution = VideoResolution::UHD;
    let args = ffmpeg_args(&c).unwrap();
    let level = args.iter().position(|a| a == "-level").unwrap();
    assert_eq!(args[level + 1], "52");
    assert_eq!(args[20], "hwmap=derive_device=vaapi,scale_vaapi=w=3840:h=2160:format=nv12");
    assert_eq!(args[22], "h264_vaapi");
}

#[test]
fn ffmpeg_rejects_av1() {
    let mut c = CaptureConfig::from_environment(env());
    c.codec = VideoCodec::AV1;
    assert_eq!(ffmpeg_args(&c).err(), Some(CaptureError::UnsupportedCodec));
}

#[test]
fn libva_driver_choice() {
    assert_eq!(libva_driver_path(true, true, true), None);
    assert_eq!(libva_driver_path(false, true, true), Some("/usr/local/lib64/dri"));
    assert_eq!(libva_driver_path(false, false, true), Some("/usr/lib64/dri-freeworld"));
    assert_eq!(libva_driver_path(false, false, false), None);
}
