use screen_share::capture::{VideoCodec, VideoResolution};
use screen_share::cli::{parse_client_args, parse_linux_client_args, parse_server_args, ServerOptions};

fn args(v: &[&str]) -> Vec<String> {
    v.iter().map(|s| s.to_string()).collect()
}

#[test]
fn server_defaults_to_hevc_1080p() {
    assert_eq!(
        parse_server_args(&args(&["server"])),
        ServerOptions { codec: VideoCodec::HEVC, resolution: VideoResolution::FHD }
    );
}

#[test]
fn server_res_2k() {
    let o = parse_server_args(&args(&["server", "--res", "2k"]));
    assert_eq!(o.resolution, VideoResolution::QHD);
    assert_eq!(o.codec, VideoCodec::HEVC);
}

#[test]
fn server_codec_h264() {
    let o = parse_server_args(&args(&["server", "--codec", "h264"]));
    assert_eq!(o.codec, VideoCodec::H264);
    assert_eq!(o.resolution, VideoResolution::FHD);
}

#[test]
fn server_values_are_case_insensitive_and_aliased() {
    let o = parse_server_args(&args(&["server", "--resolution", "UHD", "--codec", "AV1"]));
    assert_eq!(o, ServerOptions { codec: VideoCodec::AV1, resolution: VideoResolution::UHD });
    let o = parse_server_args(&args(&["server", "--codec", "H265", "--res", "1440P"]));
    assert_eq!(o, ServerOptions { codec: VideoCodec::HEVC, resolution: VideoResolution::QHD });
}

#[test]
fn server_unknown_or_missing_values_fall_back() {
    let o = parse_server_args(&args(&["server", "--codec", "vp9", "--res"]));
    assert_eq!(o, ServerOptions { codec: VideoCodec::HEVC, resolution: VideoResolution::FHD });
    // Only the first occurrence counts.
    let o = parse_server_args(&args(&["server", "--codec", "h264", "--codec", "av1"]));
    assert_eq!(o.codec, VideoCodec::H264);
}

#[test]
fn window_client_target() {
    assert!(parse_client_args(&args(&["client"])).is_none());
    let t = parse_client_args(&args(&["client", "192.168.1.50", "--codec", "H265"])).unwrap();
    assert_eq!(t.server_ip, "192.168.1.50");
    assert_eq!(t.codec_hint.as_deref(), Some("hevc"));
    let t = parse_client_args(&args(&["client", "10.0.0.2", "--codec", "h264"])).unwrap();
    assert_eq!(t.codec_hint.as_deref(), Some("h264"));
    let t = parse_client_args(&args(&["client", "10.0.0.2", "--codec", "av1"])).unwrap();
    assert_eq!(t.codec_hint, None);
}

#[test]
fn linux_client_defaults() {
    let o = parse_linux_client_args(&args(&["client-linux"])).unwrap();
    assert_eq!(o.host, "127.0.0.1");
    assert_eq!((o.video_port, o.control_port, o.local_udp_port), (5000, 5001, 50000));
    assert_eq!(o.codec_id, 1);
    assert_eq!((o.width, o.height), (1920, 1080));
}

#[test]
fn linux_client_options() {
    let o = parse_linux_client_args(&args(&[
        "client-linux", "-h", "10.1.1.1", "-p", "6000", "--control-port", "6001", "--udp-port",
        "+7000", "--codec", "AVC", "--width", "2560", "--height", "1440",
    ]))
    .unwrap();
    assert_eq!(o.host, "10.1.1.1");
    assert_eq!((o.video_port, o.control_port, o.local_udp_port), (6000, 6001, 7000));
    assert_eq!(o.codec_id, 0);
    assert_eq!((o.width, o.height), (2560, 1440));
}

#[test]
fn linux_client_bad_values_and_bare_host() {
    let o = parse_linux_client_args(&args(&[
        "client-linux", "192.168.0.9", "--port", "70000", "--width", "-5", "--unknown",
    ]))
    .unwrap();
    assert_eq!(o.host, "192.168.0.9");
    assert_eq!(o.video_port, 5000);
    assert_eq!(o.width, 1920);
}

#[test]
fn linux_client_help() {
    assert!(parse_linux_client_args(&args(&["client-linux", "--help", "-h", "x"])).is_none());
    // A value is consumed even when it reads "--help".
    assert!(parse_linux_client_args(&args(&["client-linux", "--host", "--help"])).is_some());
}
