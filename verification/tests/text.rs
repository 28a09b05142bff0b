use screen_share::text::{parse_u16, parse_u32, str_eq, trim};

#[test]
fn text_trim_unicode_white_space() {
    assert_eq!(trim("  192.168.1.5 \n"), "192.168.1.5");
    assert_eq!(trim("\u{3000}\u{a0}x y\u{2028}"), "x y");
    assert_eq!(trim(" \t "), "");
    assert_eq!(trim(""), "");
}

#[test]
fn text_parse_like_std() {
    for s in ["0", "65535", "+12", "007", "65536", "", "+", "-1", " 1", "1a", "-0"] {
        assert_eq!(parse_u16(s), s.parse::<u16>().ok(), "{}", s);
    }
    for s in ["4294967295", "4294967296", "1920", "+0", "++1"] {
        assert_eq!(parse_u32(s), s.parse::<u32>().ok(), "{}", s);
    }
}

#[test]
fn text_equality() {
    assert!(str_eq("hevc", "hevc"));
    assert!(!str_eq("hevc", "hev"));
    assert!(!str_eq("ação", "acao"));
}
