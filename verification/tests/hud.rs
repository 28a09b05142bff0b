use screen_share::hud::{
    glyph_pixels, hud_glyph, hud_layout, hud_text, latency_color, latency_level, text_pixels,
    LatencyLevel, PixelRect,
};

#[test]
fn hud_text_format() {
    assert_eq!(hud_text(60, 12), "60 FPS | 12 ms");
    assert_eq!(hud_text(0, 4294967295), "0 FPS | 4294967295 ms");
}

#[test]
fn latency_levels() {
    assert_eq!(latency_level(0), LatencyLevel::Good);
    assert_eq!(latency_level(15), LatencyLevel::Good);
    assert_eq!(latency_level(16), LatencyLevel::Fair);
    assert_eq!(latency_level(40), LatencyLevel::Fair);
    assert_eq!(latency_level(41), LatencyLevel::Poor);
    assert_eq!(latency_color(LatencyLevel::Good), (50, 220, 100));
    assert_eq!(latency_color(LatencyLevel::Fair), (240, 190, 40));
    assert_eq!(latency_color(LatencyLevel::Poor), (240, 60, 60));
}

#[test]
fn hud_layout_in_a_wide_window() {
    // "60 FPS | 12 ms" has 14 characters: 8*2 + 6 + 6 + 14*6 = 112 wide.
    let l = hud_layout(14, 1280).unwrap();
    assert_eq!(l.panel, PixelRect { x: 1280 - 112 - 12, y: 12, w: 112, h: 17 });
    assert_eq!(l.dot, PixelRect { x: 1156 + 8, y: 12 + 5, w: 6, h: 6 });
    assert_eq!((l.text_x, l.text_y), (1156 + 20, 17));
    // Too narrow: not drawn.
    assert!(hud_layout(14, 124).is_none());
    assert!(hud_layout(14, 125).is_some());
}

#[test]
fn glyph_one_is_drawn_column_by_column() {
    assert_eq!(hud_glyph('1'), [0b00100, 0b01100, 0b00100, 0b00100, 0b00100, 0b00100, 0b01110]);
    assert_eq!(hud_glyph('?'), [0; 7]);
    let rects = glyph_pixels('1', 10, 20, 2);
    // Rows: 1 + 2 + 1 + 1 + 1 + 1 + 3 lit cells.
    assert_eq!(rects.len(), 10);
    assert_eq!(rects[0], PixelRect { x: 14, y: 20, w: 2, h: 2 });
    assert_eq!(rects[1], PixelRect { x: 12, y: 22, w: 2, h: 2 });
    assert_eq!(rects[9], PixelRect { x: 16, y: 32, w: 2, h: 2 });
}

#[test]
fn text_advances_six_pixels_per_glyph() {
    let rects = text_pixels("|1", 0, 0, 1);
    let bar = glyph_pixels('|', 0, 0, 1);
    let one = glyph_pixels('1', 6, 0, 1);
    assert_eq!(rects.len(), bar.len() + one.len());
    assert_eq!(&rects[..bar.len()], &bar[..]);
    assert_eq!(&rects[bar.len()..], &one[..]);
    assert!(text_pixels("  ", 0, 0, 1).is_empty());
}
