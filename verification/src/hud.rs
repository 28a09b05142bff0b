//! The window client's overlay: frame rate and latency drawn with a 5x7
//! bitmap font in the top-right corner.

use crate::capture::{decimal, decimal_string};
use vstd::prelude::*;

verus! {

/// Width of a glyph cell (5 columns and 1 of spacing) at scale 1.
pub const GLYPH_ADVANCE: i32 = 6;

/// Height of a glyph at scale 1.
pub const GLYPH_HEIGHT: i32 = 7;

/// Horizontal padding inside the overlay.
pub const HUD_PADDING_X: i32 = 8;

/// Vertical padding inside the overlay.
pub const HUD_PADDING_Y: i32 = 5;

/// Side of the latency indicator.
pub const HUD_DOT_SIZE: i32 = 6;

/// Gap between the indicator and the text.
pub const HUD_DOT_MARGIN: i32 = 6;

/// Distance of the overlay from the window's top and right edges.
pub const HUD_MARGIN: i32 = 12;

/// A filled rectangle.
#[derive(Debug, Clone, Copy, PartialEq, Eq, Structural)]
pub struct PixelRect {
    pub x: i32,
    pub y: i32,
    pub w: u32,
    pub h: u32,
}

/// The rows of the 5x7 glyph of `c`, top first; bit 4 is the leftmost
/// column. Characters without a glyph are blank.
pub open spec fn glyph_rows(c: char) -> Seq<u8> {
    if c == '0' {
        seq![0b01110, 0b10001, 0b10011, 0b10101, 0b11001, 0b10001, 0b01110]
    } else if c == '1' {
        seq![0b00100, 0b01100, 0b00100, 0b00100, 0b00100, 0b00100, 0b01110]
    } else if c == '2' {
        seq![0b01110, 0b10001, 0b00001, 0b00010, 0b00100, 0b01000, 0b11111]
    } else if c == '3' {
        seq![0b11111, 0b00010, 0b00100, 0b00010, 0b00001, 0b10001, 0b01110]
    } else if c == '4' {
        seq![0b00010, 0b00110, 0b01010, 0b10010, 0b11111, 0b00010, 0b00010]
    } else if c == '5' {
        seq![0b11111, 0b10000, 0b11110, 0b00001, 0b00001, 0b10001, 0b01110]
    } else if c == '6' {
        seq![0b00110, 0b01000, 0b10000, 0b11110, 0b10001, 0b10001, 0b01110]
    } else if c == '7' {
        seq![0b11111, 0b00001, 0b00010, 0b00100, 0b01000, 0b01000, 0b01000]
    } else if c == '8' {
        seq![0b01110, 0b10001, 0b10001, 0b01110, 0b10001, 0b10001, 0b01110]
    } else if c == '9' {
        seq![0b01110, 0b10001, 0b10001, 0b01111, 0b00001, 0b00010, 0b01100]
    } else if c == 'F' {
        seq![0b11111, 0b10000, 0b10000, 0b11110, 0b10000, 0b10000, 0b10000]
    } else if c == 'P' {
        seq![0b11110, 0b10001, 0b10001, 0b11110, 0b10000, 0b10000, 0b10000]
    } else if c == 'S' {
        seq![0b01111, 0b10000, 0b10000, 0b01110, 0b00001, 0b00001, 0b11110]
    } else if c == 'm' {
        seq![0b00000, 0b00000, 0b11010, 0b10101, 0b10101, 0b10101, 0b10101]
    } else if c == 's' {
        seq![0b00000, 0b00000, 0b01111, 0b10000, 0b01110, 0b00001, 0b11110]
    } else if c == '|' {
        seq![0b00100, 0b00100, 0b00100, 0b00100, 0b00100, 0b00100, 0b00100]
    } else {
        seq![0b00000, 0b00000, 0b00000, 0b00000, 0b00000, 0b00000, 0b00000]
    }
}

/// The rows of the glyph of `c`.
pub fn hud_glyph(c: char) -> (rows: [u8; 7])
    ensures
        rows@ == glyph_rows(c),
{
    let rows: [u8; 7] = if c == '0' {
        [0b01110, 0b10001, 0b10011, 0b10101, 0b11001, 0b10001, 0b01110]
    } else if c == '1' {
        [0b00100, 0b01100, 0b00100, 0b00100, 0b00100, 0b00100, 0b01110]
    } else if c == '2' {
        [0b01110, 0b10001, 0b00001, 0b00010, 0b00100, 0b01000, 0b11111]
    } else if c == '3' {
        [0b11111, 0b00010, 0b00100, 0b00010, 0b00001, 0b10001, 0b01110]
    } else if c == '4' {
        [0b00010, 0b00110, 0b01010, 0b10010, 0b11111, 0b00010, 0b00010]
    } else if c == '5' {
        [0b11111, 0b10000, 0b11110, 0b00001, 0b00001, 0b10001, 0b01110]
    } else if c == '6' {
        [0b00110, 0b01000, 0b10000, 0b11110, 0b10001, 0b10001, 0b01110]
    } else if c == '7' {
        [0b11111, 0b00001, 0b00010, 0b00100, 0b01000, 0b01000, 0b01000]
    } else if c == '8' {
        [0b01110, 0b10001, 0b10001, 0b01110, 0b10001, 0b10001, 0b01110]
    } else if c == '9' {
        [0b01110, 0b10001, 0b10001, 0b01111, 0b00001, 0b00010, 0b01100]
    } else if c == 'F' {
        [0b11111, 0b10000, 0b10000, 0b11110, 0b10000, 0b10000, 0b10000]
    } else if c == 'P' {
        [0b11110, 0b10001, 0b10001, 0b11110, 0b10000, 0b10000, 0b10000]
    } else if c == 'S' {
        [0b01111, 0b10000, 0b10000, 0b01110, 0b00001, 0b00001, 0b11110]
    } else if c == 'm' {
        [0b00000, 0b00000, 0b11010, 0b10101, 0b10101, 0b10101, 0b10101]
    } else if c == 's' {
        [0b00000, 0b00000, 0b01111, 0b10000, 0b01110, 0b00001, 0b11110]
    } else if c == '|' {
        [0b00100, 0b00100, 0b00100, 0b00100, 0b00100, 0b00100, 0b00100]
    } else {
        [0b00000, 0b00000, 0b00000, 0b00000, 0b00000, 0b00000, 0b00000]
    };
    assert(rows@ =~= glyph_rows(c));
    rows
}

/// The mask of column `col` (0 = leftmost) in a glyph row.
pub open spec fn column_mask(col: int) -> u8 {
    if col == 0 {
        16
    } else if col == 1 {
        8
    } else if col == 2 {
        4
    } else if col == 3 {
        2
    } else {
        1
    }
}

/// Whether cell `k` (row `k / 5`, column `k % 5`) of a glyph is lit.
pub open spec fn cell_lit(rows: Seq<u8>, k: int) -> bool {
    rows[k / 5] & column_mask(k % 5) != 0
}

/// The square drawn for cell `k` of a glyph at `(x, y)`.
pub open spec fn cell_rect(x: i32, y: i32, scale: i32, k: int) -> PixelRect {
    PixelRect {
        x: (x + (k % 5) * scale) as i32,
        y: (y + (k / 5) * scale) as i32,
        w: scale as u32,
        h: scale as u32,
    }
}

/// The squares of the lit cells of a glyph from cell `k` on, row by row.
pub open spec fn glyph_rects(rows: Seq<u8>, x: i32, y: i32, scale: i32, k: int) -> Seq<PixelRect>
    decreases 35 - k,
{
    if k < 0 || k >= 35 {
        seq![]
    } else {
        (if cell_lit(rows, k) {
            seq![cell_rect(x, y, scale, k)]
        } else {
            seq![]
        }) + glyph_rects(rows, x, y, scale, k + 1)
    }
}

/// Whether a glyph at `(x, y)` and `scale` stays within `i32` coordinates.
pub open spec fn glyph_fits(x: i32, y: i32, scale: i32) -> bool {
    &&& i32::MIN <= 6 * scale <= i32::MAX
    &&& i32::MIN <= x + 4 * scale <= i32::MAX
    &&& i32::MIN <= y + 6 * scale <= i32::MAX
}

/// The squares that draw `c` at `(x, y)`, each `scale` pixels wide.
pub fn glyph_pixels(c: char, x: i32, y: i32, scale: i32) -> (rects: Vec<PixelRect>)
    requires
        glyph_fits(x, y, scale),
    ensures
        rects@ == glyph_rects(glyph_rows(c), x, y, scale, 0),
{
    let rows = hud_glyph(c);
    let mut rects: Vec<PixelRect> = Vec::new();
    let mut k: usize = 0;
    while k < 35
        invariant
            k <= 35,
            rows@ == glyph_rows(c),
            glyph_fits(x, y, scale),
            rects@ + glyph_rects(rows@, x, y, scale, k as int) == glyph_rects(
                rows@,
                x,
                y,
                scale,
                0,
            ),
        decreases 35 - k,
    {
        let row = k / 5;
        let col = k % 5;
        let bits = rows[row];
        let shift = (4 - col) as u8;
        let mask: u8 = 1u8 << shift;
        assert(mask == column_mask(col as int)) by (bit_vector)
            requires
                mask == 1u8 << shift,
                shift == 4 - col,
                col < 5,
        ;
        let ghost before = rects@;
        if bits & mask != 0 {
            assert(0 <= col * scale <= 4 * scale || 4 * scale <= col * scale <= 0) by (nonlinear_arith)
                requires
                    col < 5,
            ;
            assert(0 <= row * scale <= 6 * scale || 6 * scale <= row * scale <= 0) by (nonlinear_arith)
                requires
                    row < 7,
            ;
            let px = x + (col as i32) * scale;
            let py = y + (row as i32) * scale;
            rects.push(PixelRect { x: px, y: py, w: scale as u32, h: scale as u32 });
        }
        assert(rects@ + glyph_rects(rows@, x, y, scale, k + 1) =~= before + glyph_rects(
            rows@,
            x,
            y,
            scale,
            k as int,
        ));
        k = k + 1;
    }
    assert(rects@ + glyph_rects(rows@, x, y, scale, 35) =~= rects@);
    rects
}

/// The overlay text: frame rate and round-trip time.
pub open spec fn hud_text_spec(fps: u32, rtt: u32) -> Seq<char> {
    decimal(fps as nat) + " FPS | "@ + decimal(rtt as nat) + " ms"@
}

/// The overlay text, e.g. `60 FPS | 12 ms`.
pub fn hud_text(fps: u32, rtt: u32) -> (s: String)
    ensures
        s@ == hud_text_spec(fps, rtt),
{
    let s = decimal_string(fps);
    let s = s.concat(" FPS | ");
    let r = decimal_string(rtt);
    let s = s.concat(r.as_str());
    s.concat(" ms")
}

/// How the latency indicator is coloured.
#[derive(Debug, Clone, Copy, PartialEq, Eq, Structural)]
pub enum LatencyLevel {
    /// At most 15 ms: green.
    Good,
    /// At most 40 ms: amber.
    Fair,
    /// Above 40 ms: red.
    Poor,
}

/// The level of a round-trip time in milliseconds.
pub open spec fn latency_level_spec(rtt: u32) -> LatencyLevel {
    if rtt <= 15 {
        LatencyLevel::Good
    } else if rtt <= 40 {
        LatencyLevel::Fair
    } else {
        LatencyLevel::Poor
    }
}

/// The level of a round-trip time in milliseconds.
pub fn latency_level(rtt: u32) -> (l: LatencyLevel)
    ensures
        l == latency_level_spec(rtt),
{
    if rtt <= 15 {
        LatencyLevel::Good
    } else if rtt <= 40 {
        LatencyLevel::Fair
    } else {
        LatencyLevel::Poor
    }
}

/// The indicator colour of a level, as red, green, blue.
pub fn latency_color(l: LatencyLevel) -> (rgb: (u8, u8, u8))
    ensures
        rgb == match l {
            LatencyLevel::Good => (50u8, 220u8, 100u8),
            LatencyLevel::Fair => (240u8, 190u8, 40u8),
            LatencyLevel::Poor => (240u8, 60u8, 60u8),
        },
{
    match l {
        LatencyLevel::Good => (50, 220, 100),
        LatencyLevel::Fair => (240, 190, 40),
        LatencyLevel::Poor => (240, 60, 60),
    }
}

/// Where the overlay's parts go.
#[derive(Debug, Clone, Copy, PartialEq, Eq, Structural)]
pub struct HudLayout {
    /// The background box.
    pub panel: PixelRect,
    /// The latency indicator.
    pub dot: PixelRect,
    /// Top-left corner of the text.
    pub text_x: i32,
    pub text_y: i32,
}

/// Width of the overlay for a text of `chars` characters at scale 1.
pub open spec fn hud_width(chars: int) -> int {
    HUD_PADDING_X * 2 + HUD_DOT_SIZE + HUD_DOT_MARGIN + chars * GLYPH_ADVANCE
}

/// Height of the overlay at scale 1: the padding around the taller of the
/// text and the indicator.
pub open spec fn hud_height() -> int {
    HUD_PADDING_Y * 2 + GLYPH_HEIGHT
}

/// The layout of the overlay for a text of `chars` characters in a window
/// `window_width` pixels wide (taken as an `i32`), right-aligned
/// `HUD_MARGIN` from the corner; none when it does not fit (its left edge
/// would not be right of 0).
pub open spec fn hud_layout_spec(chars: nat, window_width: u32) -> Option<HudLayout> {
    let w = hud_width(chars as int);
    let h = hud_height();
    let x = (window_width as i32) - w - HUD_MARGIN;
    let y = HUD_MARGIN as int;
    if x > 0 {
        Some(
            HudLayout {
                panel: PixelRect { x: x as i32, y: y as i32, w: w as u32, h: h as u32 },
                dot: PixelRect {
                    x: (x + HUD_PADDING_X) as i32,
                    y: (y + (h - HUD_DOT_SIZE) / 2) as i32,
                    w: HUD_DOT_SIZE as u32,
                    h: HUD_DOT_SIZE as u32,
                },
                text_x: (x + HUD_PADDING_X + HUD_DOT_SIZE + HUD_DOT_MARGIN) as i32,
                text_y: (y + HUD_PADDING_Y) as i32,
            },
        )
    } else {
        None
    }
}

/// The layout of the overlay (see `hud_layout_spec`).
pub fn hud_layout(chars: usize, window_width: u32) -> (r: Option<HudLayout>)
    requires
        chars <= (i32::MAX - 28) / 6,
        (window_width as i32) - hud_width(chars as int) - HUD_MARGIN >= i32::MIN,
    ensures
        r == hud_layout_spec(chars as nat, window_width),
{
    let text_width: i32 = (chars as i32) * GLYPH_ADVANCE;
    let width: i32 = HUD_PADDING_X * 2 + HUD_DOT_SIZE + HUD_DOT_MARGIN + text_width;
    let height: i32 = HUD_PADDING_Y * 2 + GLYPH_HEIGHT;
    let x: i32 = (window_width as i32) - width - HUD_MARGIN;
    let y: i32 = HUD_MARGIN;
    if x > 0 {
        Some(
            HudLayout {
                panel: PixelRect { x, y, w: width as u32, h: height as u32 },
                dot: PixelRect {
                    x: x + HUD_PADDING_X,
                    y: y + (height - HUD_DOT_SIZE) / 2,
                    w: HUD_DOT_SIZE as u32,
                    h: HUD_DOT_SIZE as u32,
                },
                text_x: x + HUD_PADDING_X + HUD_DOT_SIZE + HUD_DOT_MARGIN,
                text_y: y + HUD_PADDING_Y,
            },
        )
    } else {
        None
    }
}

/// The squares that draw `text` from `(x, y)`: glyph `i` starts
/// `6 * scale * i` pixels right of `x`.
pub open spec fn text_rects(text: Seq<char>, x: i32, y: i32, scale: i32, i: int) -> Seq<PixelRect>
    decreases text.len() - i,
{
    if i < 0 || i >= text.len() {
        seq![]
    } else {
        glyph_rects(
            glyph_rows(text[i]),
            (x + GLYPH_ADVANCE * scale * i) as i32,
            y,
            scale,
            0,
        ) + text_rects(text, x, y, scale, i + 1)
    }
}

/// Whether `text` drawn from `(x, y)` at `scale` stays within `i32`
/// coordinates, the pen position after the last glyph included.
pub open spec fn text_fits(len: nat, x: i32, y: i32, scale: i32) -> bool {
    &&& i32::MIN <= GLYPH_ADVANCE * scale <= i32::MAX
    &&& i32::MIN <= x + GLYPH_ADVANCE * scale * len <= i32::MAX
    &&& i32::MIN <= y + 6 * scale <= i32::MAX
}

/// The squares that draw `text` from `(x, y)` with the 5x7 font.
pub fn text_pixels(text: &str, x: i32, y: i32, scale: i32) -> (rects: Vec<PixelRect>)
    requires
        text_fits(text@.len(), x, y, scale),
    ensures
        rects@ == text_rects(text@, x, y, scale, 0),
{
    let n = text.unicode_len();
    let mut rects: Vec<PixelRect> = Vec::new();
    let mut cur_x: i32 = x;
    let mut i: usize = 0;
    while i < n
        invariant
            n == text@.len(),
            i <= n,
            text_fits(text@.len(), x, y, scale),
            cur_x == x + GLYPH_ADVANCE * scale * i,
            rects@ + text_rects(text@, x, y, scale, i as int) == text_rects(text@, x, y, scale, 0),
        decreases n - i,
    {
        assert(GLYPH_ADVANCE * scale * i + GLYPH_ADVANCE * scale == GLYPH_ADVANCE * scale * (i
            + 1)) by (nonlinear_arith);
        assert(0 <= scale ==> 0 <= GLYPH_ADVANCE * scale * i <= GLYPH_ADVANCE * scale * (i + 1)
            <= GLYPH_ADVANCE * scale * n) by (nonlinear_arith)
            requires
                i + 1 <= n,
        ;
        assert(scale < 0 ==> 0 >= GLYPH_ADVANCE * scale * i >= GLYPH_ADVANCE * scale * (i + 1)
            >= GLYPH_ADVANCE * scale * n) by (nonlinear_arith)
            requires
                i + 1 <= n,
        ;
        let c = text.get_char(i);
        let glyph = glyph_pixels(c, cur_x, y, scale);
        let ghost before = rects@;
        let mut j: usize = 0;
        while j < glyph.len()
            invariant
                j <= glyph@.len(),
                rects@ == before + glyph@.subrange(0, j as int),
            decreases glyph@.len() - j,
        {
            rects.push(glyph[j]);
            j = j + 1;
            assert(rects@ =~= before + glyph@.subrange(0, j as int));
        }
        assert(glyph@.subrange(0, glyph@.len() as int) =~= glyph@);
        assert(rects@ + text_rects(text@, x, y, scale, i + 1) =~= before + text_rects(
            text@,
            x,
            y,
            scale,
            i as int,
        ));
        cur_x = cur_x + GLYPH_ADVANCE * scale;
        i = i + 1;
    }
    assert(rects@ + text_rects(text@, x, y, scale, n as int) =~= rects@);
    rects
}

/// Law: the latency indicator is green up to 15 ms, amber from 16 to
/// 40 ms and red above 40 ms, and it never gets better as the round trip
/// grows.
pub proof fn law_latency_levels(rtt: u32, later: u32)
    requires
        rtt <= later,
    ensures
        rtt <= 15 <==> latency_level_spec(rtt) == LatencyLevel::Good,
        (16 <= rtt && rtt <= 40) <==> latency_level_spec(rtt) == LatencyLevel::Fair,
        rtt > 40 <==> latency_level_spec(rtt) == LatencyLevel::Poor,
        latency_level_spec(rtt) == LatencyLevel::Poor ==> latency_level_spec(later)
            == LatencyLevel::Poor,
        latency_level_spec(later) == LatencyLevel::Good ==> latency_level_spec(rtt)
            == LatencyLevel::Good,
{
}

} // verus!
