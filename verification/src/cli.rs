//! Command-line options of the server and of the two clients.

use crate::capture::{decimal, digit_char, resolution_dimensions, VideoCodec, VideoResolution};
use crate::text::{
    all_digits, digits_value, lowercase, parse_decimal, parse_u16, parse_u32, starts_with_char, str_eq, to_lowercase,
};
use vstd::prelude::*;

verus! {

/// The characters of each argument.
pub open spec fn arg_views(args: Seq<String>) -> Seq<Seq<char>> {
    Seq::new(args.len(), |k: int| args[k]@)
}

/// The first index at or after `i` whose argument is `a` or `b`.
pub open spec fn find_flag(args: Seq<Seq<char>>, a: Seq<char>, b: Seq<char>, i: int) -> Option<int>
    decreases args.len() - i,
{
    if i < 0 || i >= args.len() {
        None
    } else if args[i] == a || args[i] == b {
        Some(i)
    } else {
        find_flag(args, a, b, i + 1)
    }
}

/// The argument after the first `a` or `b`, if there is one.
pub open spec fn flag_value(args: Seq<Seq<char>>, a: Seq<char>, b: Seq<char>) -> Option<Seq<char>> {
    match find_flag(args, a, b, 0) {
        Some(p) => if p + 1 < args.len() {
            Some(args[p + 1])
        } else {
            None
        },
        None => None,
    }
}

/// The server's codec for a `--codec` value (already lower-cased).
pub open spec fn server_codec_named(s: Seq<char>) -> Option<VideoCodec> {
    if s == "hevc"@ || s == "h265"@ {
        Some(VideoCodec::HEVC)
    } else if s == "av1"@ {
        Some(VideoCodec::AV1)
    } else if s == "h264"@ {
        Some(VideoCodec::H264)
    } else {
        None
    }
}

/// The server's resolution for a `--res` value (already lower-cased).
pub open spec fn server_resolution_named(s: Seq<char>) -> Option<VideoResolution> {
    if s == "4k"@ || s == "2160p"@ || s == "uhd"@ {
        Some(VideoResolution::UHD)
    } else if s == "2k"@ || s == "1440p"@ || s == "qhd"@ {
        Some(VideoResolution::QHD)
    } else if s == "1080p"@ || s == "fhd"@ {
        Some(VideoResolution::FHD)
    } else {
        None
    }
}

/// What the server streams by default.
#[derive(Debug, Clone, Copy, PartialEq, Eq, Structural)]
pub struct ServerOptions {
    pub codec: VideoCodec,
    pub resolution: VideoResolution,
}

/// The server's options: `--codec` (HEVC unless it names H.264, HEVC or
/// AV1) and `--res` or `--resolution` (1080p unless it names another), each
/// read at its first occurrence, case-insensitively.
pub open spec fn server_options(args: Seq<Seq<char>>) -> ServerOptions {
    ServerOptions {
        codec: match flag_value(args, "--codec"@, "--codec"@) {
            Some(v) => match server_codec_named(lowercase(v)) {
                Some(c) => c,
                None => VideoCodec::HEVC,
            },
            None => VideoCodec::HEVC,
        },
        resolution: match flag_value(args, "--res"@, "--resolution"@) {
            Some(v) => match server_resolution_named(lowercase(v)) {
                Some(r) => r,
                None => VideoResolution::FHD,
            },
            None => VideoResolution::FHD,
        },
    }
}

/// Law: the server streams at the resolution that its `--res` (or
/// `--resolution`) value names, compared without case: "4k", "2160p" and
/// "uhd" are 3840x2160; "2k", "1440p" and "qhd" are 2560x1440; "1080p" and
/// "fhd" are 1920x1080, as is any other value. Its codec is H.264 for
/// "h264", AV1 for "av1" and HEVC for anything else.
pub proof fn law_server_option_aliases(args: Seq<Seq<char>>)
    ensures
        ({
            let o = server_options(args);
            &&& flag_value(args, "--res"@, "--resolution"@) matches Some(v) ==> {
                let l = lowercase(v);
                &&& (l == "4k"@ || l == "2160p"@ || l == "uhd"@) ==> o.resolution
                    == VideoResolution::UHD && resolution_dimensions(o.resolution) == (
                    3840u32,
                    2160u32,
                )
                &&& (l == "2k"@ || l == "1440p"@ || l == "qhd"@) ==> o.resolution
                    == VideoResolution::QHD && resolution_dimensions(o.resolution) == (
                    2560u32,
                    1440u32,
                )
                &&& !(l == "4k"@ || l == "2160p"@ || l == "uhd"@ || l == "2k"@ || l == "1440p"@
                    || l == "qhd"@) ==> o.resolution == VideoResolution::FHD
                    && resolution_dimensions(o.resolution) == (1920u32, 1080u32)
            }
            &&& flag_value(args, "--res"@, "--resolution"@) is None ==> o.resolution
                == VideoResolution::FHD
            &&& flag_value(args, "--codec"@, "--codec"@) matches Some(v) ==> {
                let l = lowercase(v);
                &&& l == "h264"@ ==> o.codec == VideoCodec::H264
                &&& l == "av1"@ ==> o.codec == VideoCodec::AV1
                &&& (l != "h264"@ && l != "av1"@) ==> o.codec == VideoCodec::HEVC
            }
            &&& flag_value(args, "--codec"@, "--codec"@) is None ==> o.codec == VideoCodec::HEVC
        }),
{
    reveal_strlit("4k");
    reveal_strlit("2160p");
    reveal_strlit("uhd");
    reveal_strlit("2k");
    reveal_strlit("1440p");
    reveal_strlit("qhd");
    reveal_strlit("h264");
    reveal_strlit("hevc");
    reveal_strlit("h265");
    reveal_strlit("av1");
    assert("4k"@[0] == '4' && "2k"@[0] == '2' && "4k"@.len() == 2 && "2k"@.len() == 2);
    assert("2160p"@[1] == '1' && "1440p"@[1] == '4' && "2160p"@.len() == 5 && "1440p"@.len() == 5);
    assert("uhd"@[0] == 'u' && "qhd"@[0] == 'q' && "uhd"@.len() == 3 && "qhd"@.len() == 3);
    assert("h264"@[1] == '2' && "hevc"@[1] == 'e' && "h265"@[3] == '5' && "h264"@[3] == '4');
    assert("h264"@.len() == 4 && "hevc"@.len() == 4 && "h265"@.len() == 4 && "av1"@.len() == 3);
}

/// Law: `PROGRAM FLAG VALUE`, with `FLAG` being `--res` or `--resolution`
/// and a program name that is neither, reads `VALUE` as the resolution.
pub proof fn law_res_flag_value(program: Seq<char>, flag: Seq<char>, value: Seq<char>)
    requires
        flag == "--res"@ || flag == "--resolution"@,
        program != "--res"@,
        program != "--resolution"@,
    ensures
        flag_value(seq![program, flag, value], "--res"@, "--resolution"@) == Some(value),
{
    let a = seq![program, flag, value];
    assert(find_flag(a, "--res"@, "--resolution"@, 1) == Some(1int));
    assert(find_flag(a, "--res"@, "--resolution"@, 0) == Some(1int));
}

/// Law: the clients name codecs the same way, without case: the Linux
/// client's `--codec` takes "h264" and "avc" as H.264 (codec number 0) and
/// "hevc" and "h265" as HEVC (1); the window client's hint is "h264" for
/// "h264" and "hevc" for "hevc" or "h265". Other names are not codecs.
pub proof fn law_client_codec_names(s: Seq<char>)
    ensures
        (s == "h264"@ || s == "avc"@) ==> linux_codec_named(s) == Some(0u8),
        (s == "hevc"@ || s == "h265"@) ==> linux_codec_named(s) == Some(1u8),
        !(s == "h264"@ || s == "avc"@ || s == "hevc"@ || s == "h265"@) ==> linux_codec_named(s)
            is None,
        s == "h264"@ ==> codec_hint_named(s) == Some("h264"@),
        (s == "hevc"@ || s == "h265"@) ==> codec_hint_named(s) == Some("hevc"@),
        !(s == "h264"@ || s == "hevc"@ || s == "h265"@) ==> codec_hint_named(s) is None,
{
    reveal_strlit("h264");
    reveal_strlit("hevc");
    reveal_strlit("h265");
    reveal_strlit("avc");
    assert("h264"@[1] == '2' && "hevc"@[1] == 'e' && "h265"@[3] == '5' && "h264"@[3] == '4');
    assert("h264"@.len() == 4 && "hevc"@.len() == 4 && "h265"@.len() == 4 && "avc"@.len() == 3);
}

proof fn lemma_find_flag_bounds(args: Seq<Seq<char>>, a: Seq<char>, b: Seq<char>, i: int)
    ensures
        find_flag(args, a, b, i) matches Some(p) ==> 0 <= i <= p < args.len(),
    decreases args.len() - i,
{
    if 0 <= i < args.len() && !(args[i] == a || args[i] == b) {
        lemma_find_flag_bounds(args, a, b, i + 1);
    }
}

/// The index of the first argument that is `a` or `b`.
pub fn find_flag_index(args: &Vec<String>, a: &str, b: &str) -> (r: Option<usize>)
    ensures
        match r {
            Some(p) => find_flag(arg_views(args@), a@, b@, 0) == Some(p as int) && p < args@.len(),
            None => find_flag(arg_views(args@), a@, b@, 0) is None,
        },
{
    proof {
        lemma_find_flag_bounds(arg_views(args@), a@, b@, 0);
    }
    let ghost av = arg_views(args@);
    let mut i: usize = 0;
    while i < args.len()
        invariant
            i <= args@.len(),
            av == arg_views(args@),
            find_flag(av, a@, b@, 0) == find_flag(av, a@, b@, i as int),
        decreases args@.len() - i,
    {
        if str_eq(args[i].as_str(), a) || str_eq(args[i].as_str(), b) {
            return Some(i);
        }
        i = i + 1;
    }
    None
}

/// The argument after the first `a` or `b`, lower-cased.
fn lowered_flag_value(args: &Vec<String>, a: &str, b: &str) -> (r: Option<String>)
    ensures
        match flag_value(arg_views(args@), a@, b@) {
            Some(v) => r matches Some(s) && s@ == lowercase(v),
            None => r is None,
        },
{
    let ghost av = arg_views(args@);
    match find_flag_index(args, a, b) {
        Some(p) => {
            assert(find_flag(av, a@, b@, 0) == Some(p as int));
            if p < args.len() - 1 {
                assert(av[p + 1] == args@[p + 1]@);
                let r = to_lowercase(args[p + 1].as_str());
                assert(flag_value(av, a@, b@) == Some(av[p + 1]));
                Some(r)
            } else {
                assert(flag_value(av, a@, b@) is None);
                None
            }
        },
        None => None,
    }
}

/// Parses the server's command line (`args[0]` is the program).
pub fn parse_server_args(args: &Vec<String>) -> (r: ServerOptions)
    ensures
        r == server_options(arg_views(args@)),
{
    let codec = match lowered_flag_value(args, "--codec", "--codec") {
        Some(v) => {
            let s = v.as_str();
            if str_eq(s, "hevc") || str_eq(s, "h265") {
                VideoCodec::HEVC
            } else if str_eq(s, "av1") {
                VideoCodec::AV1
            } else if str_eq(s, "h264") {
                VideoCodec::H264
            } else {
                VideoCodec::HEVC
            }
        },
        None => VideoCodec::HEVC,
    };
    let resolution = match lowered_flag_value(args, "--res", "--resolution") {
        Some(v) => {
            let s = v.as_str();
            if str_eq(s, "4k") || str_eq(s, "2160p") || str_eq(s, "uhd") {
                VideoResolution::UHD
            } else if str_eq(s, "2k") || str_eq(s, "1440p") || str_eq(s, "qhd") {
                VideoResolution::QHD
            } else {
                VideoResolution::FHD
            }
        },
        None => VideoResolution::FHD,
    };
    ServerOptions { codec, resolution }
}

/// The window client's codec hint for a `--codec` value (lower-cased).
pub open spec fn codec_hint_named(s: Seq<char>) -> Option<Seq<char>> {
    if s == "hevc"@ || s == "h265"@ {
        Some("hevc"@)
    } else if s == "h264"@ {
        Some("h264"@)
    } else {
        None
    }
}

/// Where the window client connects when started with a host address.
pub struct ClientTarget {
    pub server_ip: String,
    pub codec_hint: Option<String>,
}

/// The window client's target: the first argument is the host, `--codec`
/// gives an optional hint; without arguments there is none (the launcher
/// asks).
pub open spec fn client_target(args: Seq<Seq<char>>) -> Option<(Seq<char>, Option<Seq<char>>)> {
    if args.len() >= 2 {
        Some(
            (
                args[1],
                match flag_value(args, "--codec"@, "--codec"@) {
                    Some(v) => codec_hint_named(lowercase(v)),
                    None => None,
                },
            ),
        )
    } else {
        None
    }
}

/// The model of a target.
pub open spec fn target_view(t: ClientTarget) -> (Seq<char>, Option<Seq<char>>) {
    (
        t.server_ip@,
        match t.codec_hint {
            Some(h) => Some(h@),
            None => None,
        },
    )
}

/// Parses the window client's command line (`args[0]` is the program).
pub fn parse_client_args(args: &Vec<String>) -> (r: Option<ClientTarget>)
    ensures
        match client_target(arg_views(args@)) {
            Some(t) => r matches Some(c) && target_view(c) == t,
            None => r is None,
        },
{
    if args.len() < 2 {
        return None;
    }
    let server_ip = args[1].clone();
    let codec_hint = match lowered_flag_value(args, "--codec", "--codec") {
        Some(v) => {
            let s = v.as_str();
            if str_eq(s, "hevc") || str_eq(s, "h265") {
                Some(String::from_str("hevc"))
            } else if str_eq(s, "h264") {
                Some(String::from_str("h264"))
            } else {
                None
            }
        },
        None => None,
    };
    Some(ClientTarget { server_ip, codec_hint })
}

/// Options of the Linux client.
pub struct LinuxClientOptions {
    pub host: String,
    pub video_port: u16,
    pub control_port: u16,
    pub local_udp_port: u16,
    /// 0 = H.264, 1 = HEVC.
    pub codec_id: u8,
    pub width: u32,
    pub height: u32,
}

/// The model of the Linux client's options.
pub struct LinuxClientModel {
    pub host: Seq<char>,
    pub video_port: u16,
    pub control_port: u16,
    pub local_udp_port: u16,
    pub codec_id: u8,
    pub width: u32,
    pub height: u32,
}

/// The model of options.
pub open spec fn linux_options_view(o: LinuxClientOptions) -> LinuxClientModel {
    LinuxClientModel {
        host: o.host@,
        video_port: o.video_port,
        control_port: o.control_port,
        local_udp_port: o.local_udp_port,
        codec_id: o.codec_id,
        width: o.width,
        height: o.height,
    }
}

/// The defaults: 127.0.0.1, ports 5000 / 5001 / 50000, HEVC, 1920x1080.
pub open spec fn linux_defaults() -> LinuxClientModel {
    LinuxClientModel {
        host: "127.0.0.1"@,
        video_port: 5000,
        control_port: 5001,
        local_udp_port: 50000,
        codec_id: 1,
        width: 1920,
        height: 1080,
    }
}

/// The codec number for a `--codec` value (lower-cased): 0 for H.264 or
/// AVC, 1 for HEVC or H.265.
pub open spec fn linux_codec_named(s: Seq<char>) -> Option<u8> {
    if s == "h264"@ || s == "avc"@ {
        Some(0)
    } else if s == "hevc"@ || s == "h265"@ {
        Some(1)
    } else {
        None
    }
}

/// The value of a port option, or the old value when it does not parse.
pub open spec fn port_or(s: Seq<char>, old: u16) -> u16 {
    match parse_decimal(s, u16::MAX as nat) {
        Some(v) => v as u16,
        None => old,
    }
}

/// The value of a size option, or the old value when it does not parse.
pub open spec fn size_or(s: Seq<char>, old: u32) -> u32 {
    match parse_decimal(s, u32::MAX as nat) {
        Some(v) => v as u32,
        None => old,
    }
}

/// What the Linux client's options from argument `i` on make of `o`;
/// `None` when `--help` comes first.
pub open spec fn scan_linux_args(args: Seq<Seq<char>>, i: int, o: LinuxClientModel) -> Option<
    LinuxClientModel,
>
    decreases args.len() - i,
{
    if i < 1 || i >= args.len() {
        Some(o)
    } else {
        let a = args[i];
        let more = i + 1 < args.len();
        if a == "--host"@ || a == "-h"@ {
            if more {
                scan_linux_args(args, i + 2, LinuxClientModel { host: args[i + 1], ..o })
            } else {
                scan_linux_args(args, i + 1, o)
            }
        } else if a == "--port"@ || a == "-p"@ {
            if more {
                scan_linux_args(
                    args,
                    i + 2,
                    LinuxClientModel { video_port: port_or(args[i + 1], o.video_port), ..o },
                )
            } else {
                scan_linux_args(args, i + 1, o)
            }
        } else if a == "--control-port"@ {
            if more {
                scan_linux_args(
                    args,
                    i + 2,
                    LinuxClientModel { control_port: port_or(args[i + 1], o.control_port), ..o },
                )
            } else {
                scan_linux_args(args, i + 1, o)
            }
        } else if a == "--udp-port"@ {
            if more {
                scan_linux_args(
                    args,
                    i + 2,
                    LinuxClientModel {
                        local_udp_port: port_or(args[i + 1], o.local_udp_port),
                        ..o
                    },
                )
            } else {
                scan_linux_args(args, i + 1, o)
            }
        } else if a == "--codec"@ {
            if more {
                scan_linux_args(
                    args,
                    i + 2,
                    LinuxClientModel {
                        codec_id: match linux_codec_named(lowercase(args[i + 1])) {
                            Some(c) => c,
                            None => o.codec_id,
                        },
                        ..o
                    },
                )
            } else {
                scan_linux_args(args, i + 1, o)
            }
        } else if a == "--width"@ {
            if more {
                scan_linux_args(
                    args,
                    i + 2,
                    LinuxClientModel { width: size_or(args[i + 1], o.width), ..o },
                )
            } else {
                scan_linux_args(args, i + 1, o)
            }
        } else if a == "--height"@ {
            if more {
                scan_linux_args(
                    args,
                    i + 2,
                    LinuxClientModel { height: size_or(args[i + 1], o.height), ..o },
                )
            } else {
                scan_linux_args(args, i + 1, o)
            }
        } else if a == "--help"@ {
            None
        } else if !(a.len() > 0 && a[0] == '-') {
            scan_linux_args(args, i + 1, LinuxClientModel { host: a, ..o })
        } else {
            scan_linux_args(args, i + 1, o)
        }
    }
}

/// Parses the Linux client's command line (`args[0]` is the program);
/// `None` asks for the usage text. Options with a value skip it; a value
/// that does not parse leaves the option unchanged; a bare argument not
/// starting with `-` is the host.
pub fn parse_linux_client_args(args: &Vec<String>) -> (r: Option<LinuxClientOptions>)
    ensures
        match scan_linux_args(arg_views(args@), 1, linux_defaults()) {
            Some(m) => r matches Some(o) && linux_options_view(o) == m,
            None => r is None,
        },
{
    let ghost av = arg_views(args@);
    let mut o = LinuxClientOptions {
        host: String::from_str("127.0.0.1"),
        video_port: 5000,
        control_port: 5001,
        local_udp_port: 50000,
        codec_id: 1,
        width: 1920,
        height: 1080,
    };
    let n = args.len();
    let mut i: usize = 1;
    while i < n
        invariant
            n == args@.len(),
            1 <= i <= n + 1,
            av == arg_views(args@),
            scan_linux_args(av, 1, linux_defaults()) == scan_linux_args(
                av,
                i as int,
                linux_options_view(o),
            ),
        decreases n - i,
    {
        let a = args[i].as_str();
        let more = i + 1 < n;
        let ghost before = linux_options_view(o);
        if str_eq(a, "--host") || str_eq(a, "-h") {
            if more {
                o.host = args[i + 1].clone();
                i = i + 1;
            }
        } else if str_eq(a, "--port") || str_eq(a, "-p") {
            if more {
                match parse_u16(args[i + 1].as_str()) {
                    Some(v) => {
                        o.video_port = v;
                    },
                    None => {},
                }
                i = i + 1;
            }
        } else if str_eq(a, "--control-port") {
            if more {
                match parse_u16(args[i + 1].as_str()) {
                    Some(v) => {
                        o.control_port = v;
                    },
                    None => {},
                }
                i = i + 1;
            }
        } else if str_eq(a, "--udp-port") {
            if more {
                match parse_u16(args[i + 1].as_str()) {
                    Some(v) => {
                        o.local_udp_port = v;
                    },
                    None => {},
                }
                i = i + 1;
            }
        } else if str_eq(a, "--codec") {
            if more {
                let lower = to_lowercase(args[i + 1].as_str());
                let s = lower.as_str();
                if str_eq(s, "h264") || str_eq(s, "avc") {
                    o.codec_id = 0;
                } else if str_eq(s, "hevc") || str_eq(s, "h265") {
                    o.codec_id = 1;
                }
                i = i + 1;
            }
        } else if str_eq(a, "--width") {
            if more {
                match parse_u32(args[i + 1].as_str()) {
                    Some(v) => {
                        o.width = v;
                    },
                    None => {},
                }
                i = i + 1;
            }
        } else if str_eq(a, "--height") {
            if more {
                match parse_u32(args[i + 1].as_str()) {
                    Some(v) => {
                        o.height = v;
                    },
                    None => {},
                }
                i = i + 1;
            }
        } else if str_eq(a, "--help") {
            return None;
        } else if !starts_with_char(a, '-') {
            o.host = args[i].clone();
        }
        i = i + 1;
    }
    Some(o)
}

/// The Linux client's options when none is given, written out.
pub open spec fn linux_option_defaults() -> LinuxClientModel {
    LinuxClientModel {
        host: "127.0.0.1"@,
        video_port: 5000,
        control_port: 5001,
        local_udp_port: 50000,
        codec_id: 1,
        width: 1920,
        height: 1080,
    }
}

/// Law: the Linux client connects to 127.0.0.1, video port 5000, control
/// port 5001, receives on UDP port 50000, asks for HEVC (1) and shows
/// 1920x1080 unless told otherwise. Each option given alone changes its own
/// setting and no other: `--host`/`-h` the host, `--port`/`-p` the video
/// port, `--control-port`, `--udp-port`, `--width` and `--height` their
/// numbers (kept when the value is not a number in range), `--codec` the
/// codec number (0 for h264/avc, 1 for hevc/h265, without case; kept
/// otherwise). `--help` asks for the usage text instead.
pub proof fn law_linux_client_options(program: Seq<char>, v: Seq<char>)
    ensures
        scan_linux_args(seq![program], 1, linux_defaults()) == Some(linux_option_defaults()),
        scan_linux_args(seq![program, "--help"@], 1, linux_defaults()) is None,
        scan_linux_args(seq![program, "--host"@, v], 1, linux_defaults()) == Some(
            LinuxClientModel { host: v, ..linux_option_defaults() },
        ),
        scan_linux_args(seq![program, "-h"@, v], 1, linux_defaults()) == Some(
            LinuxClientModel { host: v, ..linux_option_defaults() },
        ),
        scan_linux_args(seq![program, "--port"@, v], 1, linux_defaults()) == Some(
            LinuxClientModel { video_port: port_or(v, 5000), ..linux_option_defaults() },
        ),
        scan_linux_args(seq![program, "-p"@, v], 1, linux_defaults()) == Some(
            LinuxClientModel { video_port: port_or(v, 5000), ..linux_option_defaults() },
        ),
        scan_linux_args(seq![program, "--control-port"@, v], 1, linux_defaults()) == Some(
            LinuxClientModel { control_port: port_or(v, 5001), ..linux_option_defaults() },
        ),
        scan_linux_args(seq![program, "--udp-port"@, v], 1, linux_defaults()) == Some(
            LinuxClientModel { local_udp_port: port_or(v, 50000), ..linux_option_defaults() },
        ),
        scan_linux_args(seq![program, "--width"@, v], 1, linux_defaults()) == Some(
            LinuxClientModel { width: size_or(v, 1920), ..linux_option_defaults() },
        ),
        scan_linux_args(seq![program, "--height"@, v], 1, linux_defaults()) == Some(
            LinuxClientModel { height: size_or(v, 1080), ..linux_option_defaults() },
        ),
        (lowercase(v) == "h264"@ || lowercase(v) == "avc"@) ==> scan_linux_args(
            seq![program, "--codec"@, v],
            1,
            linux_defaults(),
        ) == Some(LinuxClientModel { codec_id: 0, ..linux_option_defaults() }),
        !(lowercase(v) == "h264"@ || lowercase(v) == "avc"@) ==> scan_linux_args(
            seq![program, "--codec"@, v],
            1,
            linux_defaults(),
        ) == Some(linux_option_defaults()),
{
    reveal_strlit("--host");
    reveal_strlit("-h");
    reveal_strlit("--port");
    reveal_strlit("-p");
    reveal_strlit("--control-port");
    reveal_strlit("--udp-port");
    reveal_strlit("--codec");
    reveal_strlit("--width");
    reveal_strlit("--height");
    reveal_strlit("--help");
    reveal_strlit("h264");
    reveal_strlit("hevc");
    reveal_strlit("h265");
    reveal_strlit("avc");
    assert("--host"@.len() == 6 && "--port"@.len() == 6 && "--help"@.len() == 6);
    assert("-h"@.len() == 2 && "-p"@.len() == 2 && "--control-port"@.len() == 14);
    assert("--udp-port"@.len() == 10 && "--codec"@.len() == 7 && "--width"@.len() == 7);
    assert("--height"@.len() == 8);
    assert("--host"@[2] == 'h' && "--host"@[3] == 'o' && "--help"@[3] == 'e' && "--port"@[2]
        == 'p');
    assert("-h"@[1] == 'h' && "-p"@[1] == 'p' && "--codec"@[2] == 'c' && "--width"@[2] == 'w');
    assert("--help"@[0] == '-' && "--host"@[0] == '-' && "--port"@[0] == '-' && "-h"@[0] == '-'
        && "-p"@[0] == '-' && "--control-port"@[0] == '-' && "--udp-port"@[0] == '-'
        && "--codec"@[0] == '-' && "--width"@[0] == '-' && "--height"@[0] == '-');
    assert("h264"@[1] == '2' && "hevc"@[1] == 'e' && "h265"@[3] == '5' && "h264"@[3] == '4');
    assert("h264"@.len() == 4 && "hevc"@.len() == 4 && "h265"@.len() == 4 && "avc"@.len() == 3);
    let d = linux_defaults();
    assert(scan_linux_args(seq![program], 1, d) == Some(d));
    let m0 = LinuxClientModel { host: v, ..d };
    let a0 = seq![program, "--host"@, v];
    assert(scan_linux_args(a0, 3, m0) == Some(m0));
    assert(scan_linux_args(a0, 1, d) == scan_linux_args(a0, 3, m0));
    let m1 = LinuxClientModel { host: v, ..d };
    let a1 = seq![program, "-h"@, v];
    assert(scan_linux_args(a1, 3, m1) == Some(m1));
    assert(scan_linux_args(a1, 1, d) == scan_linux_args(a1, 3, m1));
    let m2 = LinuxClientModel { video_port: port_or(v, d.video_port), ..d };
    let a2 = seq![program, "--port"@, v];
    assert(scan_linux_args(a2, 3, m2) == Some(m2));
    assert(scan_linux_args(a2, 1, d) == scan_linux_args(a2, 3, m2));
    let m3 = LinuxClientModel { video_port: port_or(v, d.video_port), ..d };
    let a3 = seq![program, "-p"@, v];
    assert(scan_linux_args(a3, 3, m3) == Some(m3));
    assert(scan_linux_args(a3, 1, d) == scan_linux_args(a3, 3, m3));
    let m4 = LinuxClientModel { control_port: port_or(v, d.control_port), ..d };
    let a4 = seq![program, "--control-port"@, v];
    assert(scan_linux_args(a4, 3, m4) == Some(m4));
    assert(scan_linux_args(a4, 1, d) == scan_linux_args(a4, 3, m4));
    let m5 = LinuxClientModel { local_udp_port: port_or(v, d.local_udp_port), ..d };
    let a5 = seq![program, "--udp-port"@, v];
    assert(scan_linux_args(a5, 3, m5) == Some(m5));
    assert(scan_linux_args(a5, 1, d) == scan_linux_args(a5, 3, m5));
    let m6 = LinuxClientModel { width: size_or(v, d.width), ..d };
    let a6 = seq![program, "--width"@, v];
    assert(scan_linux_args(a6, 3, m6) == Some(m6));
    assert(scan_linux_args(a6, 1, d) == scan_linux_args(a6, 3, m6));
    let m7 = LinuxClientModel { height: size_or(v, d.height), ..d };
    let a7 = seq![program, "--height"@, v];
    assert(scan_linux_args(a7, 3, m7) == Some(m7));
    assert(scan_linux_args(a7, 1, d) == scan_linux_args(a7, 3, m7));
    let m8 = LinuxClientModel { codec_id: match linux_codec_named(lowercase(v)) {
            Some(c) => c,
            None => d.codec_id,
        }, ..d };
    let a8 = seq![program, "--codec"@, v];
    assert(scan_linux_args(a8, 3, m8) == Some(m8));
    assert(scan_linux_args(a8, 1, d) == scan_linux_args(a8, 3, m8));
    assert(scan_linux_args(seq![program, "--help"@], 1, d) is None);
}

proof fn lemma_decimal_digits(n: nat)
    ensures
        decimal(n).len() > 0,
        all_digits(decimal(n)),
        digits_value(decimal(n)) == n,
        n > 0 ==> decimal(n)[0] != '0',
    decreases n,
{
    let d = digit_char(n % 10);
    assert((48 + n % 10) as char as u32 == 48 + n % 10);
    if n >= 10 {
        lemma_decimal_digits(n / 10);
        let s = decimal(n);
        assert(s.drop_last() =~= decimal(n / 10));
        assert(s.last() == digit_char(n % 10));
        assert forall|k: int| 0 <= k < s.len() implies '0' <= #[trigger] s[k] <= '9' by {
            if k < s.len() - 1 {
                assert(s[k] == decimal(n / 10)[k]);
            }
        }
        assert(digits_value(s) == digits_value(decimal(n / 10)) * 10 + ((s.last() as u32) - 0x30) as nat);
        assert((n / 10) * 10 + n % 10 == n);
        assert(s[0] == decimal(n / 10)[0]);
    } else {
        let s = decimal(n);
        assert(s.drop_last() =~= Seq::<char>::empty());
        assert(digits_value(s) == digits_value(s.drop_last()) * 10 + ((s.last() as u32) - 0x30) as nat);
    }
}

/// Law: a number option reads back what `to_string` writes: the decimal
/// notation of a number has no leading zero, and the decimal notation of
/// any number up to the option's largest value parses to that number, so `--port 6000` sets port 6000 and `--width 2560` width 2560.
pub proof fn law_number_options_read_decimal(n: nat, max: nat, old_port: u16, old_size: u32)
    requires
        n <= max,
    ensures
        parse_decimal(decimal(n), max) == Some(n),
        n > 0 ==> decimal(n)[0] != '0',
        n <= u16::MAX ==> port_or(decimal(n), old_port) == n,
        n <= u32::MAX ==> size_or(decimal(n), old_size) == n,
{
    lemma_decimal_digits(n);
    assert(decimal(n)[0] != '+') by {
        assert('0' <= decimal(n)[0] <= '9');
    }
}

} // verus!
