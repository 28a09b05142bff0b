use screen_share::display::{
    decoder_args, low_latency_options, needs_new_texture, stream_url, yuv_frame_size, yuv_planes,
    LatestSlot, YuvFrame, YuvPlanes,
};

#[test]
fn decoder_command_line() {
    assert_eq!(
        decoder_args(1),
        vec![
            "-loglevel", "error", "-flags", "low_delay", "-fflags", "nobuffer", "-f", "hevc", "-i",
            "pipe:0", "-f", "rawvideo", "-pix_fmt", "yuv420p", "pipe:1"
        ]
    );
    assert_eq!(decoder_args(0)[7], "h264");
    assert_eq!(decoder_args(7)[7], "h264");
}

#[test]
fn i420_sizes_and_planes() {
    assert_eq!(yuv_frame_size(1920, 1080), 3110400);
    let p = yuv_planes(3110400, 1920, 1080).unwrap();
    assert_eq!(
        p,
        YuvPlanes {
            y_start: 0,
            y_end: 2073600,
            u_start: 2073600,
            u_end: 2592000,
            v_start: 2592000,
            v_end: 3110400,
            y_pitch: 1920,
            uv_pitch: 960,
        }
    );
    assert!(yuv_planes(3110399, 1920, 1080).is_none());
}

#[test]
fn texture_is_remade_on_size_change() {
    assert!(needs_new_texture(None, 1, 1));
    assert!(!needs_new_texture(Some((1920, 1080)), 1920, 1080));
    assert!(needs_new_texture(Some((1920, 1080)), 2560, 1080));
}

#[test]
fn latest_frame_wins() {
    let mut slot = LatestSlot::new();
    assert!(slot.take().is_none());
    slot.store(YuvFrame { width: 2, height: 2, data: vec![1; 6] });
    slot.store(YuvFrame { width: 2, height: 2, data: vec![2; 6] });
    let f = slot.take().unwrap();
    assert_eq!(f.data, vec![2; 6]);
    assert!(slot.take().is_none());
}

#[test]
fn stream_address_and_options() {
    assert_eq!(stream_url("10.0.0.1"), "tcp://10.0.0.1:5000?nodelay=1&buffer_size=65536");
    assert_eq!(
        low_latency_options(),
        vec![("flags", "low_delay"), ("fflags", "nobuffer"), ("probesize", "65536"), ("analyzeduration", "0")]
    );
}
