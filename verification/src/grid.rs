//! Cell-based text model: cursor, wrapping, scrolling, and glyph blitting
//! into a plain pixel buffer.
//!
//! [`TextGrid`] is a console over an owned [`Cell`] buffer; the pixel side
//! renders a font glyph into a [`Surface`] (`u32` pixels packed
//! `0x00RRGGBB`).
use vstd::prelude::*;
use crate::api::Rgb;
use crate::font::Font;

verus! {

/// One logical screen cell: a glyph plus foreground and background colors.
#[derive(Clone, Copy, Debug, PartialEq, Eq, Structural)]
pub struct Cell {
    pub glyph: char,
    pub fg: Rgb,
    pub bg: Rgb,
}

impl Cell {
    /// An empty cell (`' '`) in `fg`/`bg`.
    pub fn blank(fg: Rgb, bg: Rgb) -> (c: Self)
        ensures
            c == blank_cell(fg, bg),
    {
        Cell { glyph: ' ', fg, bg }
    }
}

pub open spec fn blank_cell(fg: Rgb, bg: Rgb) -> Cell {
    Cell { glyph: ' ', fg, bg }
}

/// The default tab stop width used by the cursor.
pub const TAB_WIDTH: u32 = 8;

/// How a glyph is painted: foreground/background colors and per-pixel scale.
#[derive(Clone, Copy, Debug, PartialEq, Eq, Structural)]
pub struct GlyphStyle {
    pub fg: Rgb,
    pub bg: Rgb,
    pub scale: u32,
}

impl GlyphStyle {
    /// One font pixel per screen pixel in `fg`/`bg`.
    pub fn new(fg: Rgb, bg: Rgb) -> (s: Self)
        ensures
            s == (GlyphStyle { fg, bg, scale: 1 }),
    {
        GlyphStyle { fg, bg, scale: 1 }
    }
}

/// A `u32` pixel surface (packed `0x00RRGGBB`) laid out `width` per row,
/// with bounds-clipped writes.
pub struct Surface {
    pixels: Vec<u32>,
    width: usize,
    height: usize,
}

/// `0x00RRGGBB` packing of a color.
pub open spec fn pack_spec(c: Rgb) -> u32 {
    ((c.r as int) * 65536 + (c.g as int) * 256 + (c.b as int)) as u32
}

fn pack(c: Rgb) -> (p: u32)
    ensures
        p == pack_spec(c),
{
    (c.r as u32) * 65536 + (c.g as u32) * 256 + (c.b as u32)
}

/// `style.scale` clamped into `1..=64`.
pub open spec fn clamp_scale(scale: u32) -> int {
    if scale < 1 {
        1
    } else if scale > 64 {
        64
    } else {
        scale as int
    }
}

impl Surface {
    pub closed spec fn spec_pixels(&self) -> Seq<u32> {
        self.pixels@
    }

    pub closed spec fn spec_width(&self) -> usize {
        self.width
    }

    pub closed spec fn spec_height(&self) -> usize {
        self.height
    }

    /// The buffer holds the whole `width` by `height` rectangle.
    pub closed spec fn wf(&self) -> bool {
        self.width >= 1 && self.width * self.height <= self.pixels@.len()
    }

    /// Wraps `pixels` laid out `width` per row; `None` when the buffer cannot
    /// hold `width * height` pixels.
    pub fn new(pixels: Vec<u32>, width: usize, height: usize) -> (r: Option<Self>)
        ensures
            r is None <==> (width == 0 || width * height > pixels@.len()),
            r matches Some(s) ==> s.wf() && s.spec_pixels() == pixels@ && s.spec_width() == width
                && s.spec_height() == height,
    {
        let len = pixels.len();
        let needed = match width.checked_mul(height) {
            Some(n) => n,
            None => {
                return None;
            },
        };
        if width == 0 || needed > len {
            return None;
        }
        Some(Surface { pixels, width, height })
    }

    pub fn width(&self) -> (w: usize)
        ensures
            w == self.spec_width(),
    {
        self.width
    }

    pub fn height(&self) -> (h: usize)
        ensures
            h == self.spec_height(),
    {
        self.height
    }

    /// The pixel buffer, row-major.
    pub fn pixels(&self) -> (p: &[u32])
        ensures
            p@ == self.spec_pixels(),
    {
        self.pixels.as_slice()
    }

    /// Gives the pixel buffer back.
    pub fn into_pixels(self) -> (p: Vec<u32>)
        ensures
            p@ == self.spec_pixels(),
    {
        self.pixels
    }

    /// Writes one pixel, clipping out-of-bounds coordinates.
    pub fn put(&mut self, x: usize, y: usize, color: u32)
        requires
            old(self).wf(),
        ensures
            final(self).wf(),
            final(self).spec_width() == old(self).spec_width(),
            final(self).spec_height() == old(self).spec_height(),
            final(self).spec_pixels().len() == old(self).spec_pixels().len(),
            final(self).spec_pixels() == if x < old(self).spec_width() && y < old(
                self,
            ).spec_height() {
                old(self).spec_pixels().update(y * old(self).spec_width() + x, color)
            } else {
                old(self).spec_pixels()
            },
    {
        let len = self.pixels.len();
        if x < self.width && y < self.height {
            proof {
                assert((y as int) * (self.width as int) + (x as int) < (self.width as int) * (
                self.height as int)) by (nonlinear_arith)
                    requires
                        x < self.width,
                        y < self.height,
                ;
                assert(0 <= (y as int) * (self.width as int)) by (nonlinear_arith);
            }
            let i = y * self.width + x;
            self.pixels.set(i, color);
        }
    }

    /// Draws glyph `index` of `font` with its top-left at `(px, py)`, each
    /// font pixel as a square of `style.scale` (clamped to `1..=64`) screen
    /// pixels in the foreground or background color, clipped to the surface.
    pub fn blit_glyph(&mut self, font: &Font, index: u32, px: usize, py: usize, style: GlyphStyle)
        requires
            old(self).wf(),
            font.wf(),
            font.pixels_addressable(),
            px + font.spec_width() * clamp_scale(style.scale) <= usize::MAX + 1,
            py + font.spec_height() * clamp_scale(style.scale) <= usize::MAX + 1,
        ensures
            final(self).wf(),
            final(self).spec_width() == old(self).spec_width(),
            final(self).spec_height() == old(self).spec_height(),
            glyph_blitted(
                old(self).spec_pixels(),
                final(self).spec_pixels(),
                old(self).spec_width() as int,
                old(self).spec_height() as int,
                *font,
                index,
                px as int,
                py as int,
                style,
            ),
    {
        let ghost before = self.pixels@;
        let ghost w = self.width as int;
        let ghost h = self.height as int;
        let fg = pack(style.fg);
        let bg = pack(style.bg);
        let scale: usize = if style.scale < 1 {
            1
        } else if style.scale > 64 {
            64
        } else {
            style.scale as usize
        };
        let ghost s = scale as int;
        let fw = font.width() as usize;
        let fh = font.height() as usize;
        if index >= font.glyph_count() {
            return;
        }
        proof {
            assert forall|x: int, y: int| 0 <= x < w && 0 <= y < h implies #[trigger] pixel_at(
                self.pixels@,
                w,
                x,
                y,
            ) == if painted(x, y, px as int, py as int, s, fw as int, fh as int, 0, 0, 0, 0) {
                glyph_color(*font, index, (x - px) / s, (y - py) / s, style)
            } else {
                pixel_at(before, w, x, y)
            } by {
                lemma_painted_carry_gx(x, y, px as int, py as int, s, fw as int, fh as int, 0);
            }
        }
        let mut gy: usize = 0;
        while gy < fh
            invariant
                self.wf(),
                self.width == w,
                self.height == h,
                s == clamp_scale(style.scale),
                scale == s,
                fw == font.spec_width(),
                fh == font.spec_height(),
                font.wf(),
                font.pixels_addressable(),
                index < font.spec_glyph_count(),
                fg == pack_spec(style.fg),
                bg == pack_spec(style.bg),
                px + fw * s <= usize::MAX + 1,
                py + fh * s <= usize::MAX + 1,
                gy <= fh,
                blit_progress(before, self.pixels@, w, h, *font, index, px as int, py as int, style, gy as int, 0, 0, 0),
            decreases fh - gy,
        {
            let mut gx: usize = 0;
            while gx < fw
                invariant
                    self.wf(),
                    self.width == w,
                    self.height == h,
                    s == clamp_scale(style.scale),
                    scale == s,
                    fw == font.spec_width(),
                    fh == font.spec_height(),
                    font.wf(),
                    font.pixels_addressable(),
                    index < font.spec_glyph_count(),
                    fg == pack_spec(style.fg),
                    bg == pack_spec(style.bg),
                    px + fw * s <= usize::MAX + 1,
                    py + fh * s <= usize::MAX + 1,
                    gy < fh,
                    gx <= fw,
                    blit_progress(before, self.pixels@, w, h, *font, index, px as int, py as int, style, gy as int, gx as int, 0, 0),
                decreases fw - gx,
            {
                proof {
                    font.lemma_pixel_in_bitmap(gx as u32, gy as u32);
                }
                let set = font.glyph_pixel(index, gx as u32, gy as u32).unwrap();
                let color = if set {
                    fg
                } else {
                    bg
                };
                assert(color == glyph_color(*font, index, gx as int, gy as int, style));
                let mut sy: usize = 0;
                while sy < scale
                    invariant
                        self.wf(),
                        self.width == w,
                        self.height == h,
                        s == clamp_scale(style.scale),
                        scale == s,
                        fw == font.spec_width(),
                        fh == font.spec_height(),
                        px + fw * s <= usize::MAX + 1,
                        py + fh * s <= usize::MAX + 1,
                        gy < fh,
                        gx < fw,
                        sy <= scale,
                        color == glyph_color(*font, index, gx as int, gy as int, style),
                        blit_progress(before, self.pixels@, w, h, *font, index, px as int, py as int, style, gy as int, gx as int, sy as int, 0),
                    decreases scale - sy,
                {
                    proof {
                        assert((gy as int) * s + (sy as int) < (fh as int) * s) by (nonlinear_arith)
                            requires
                                gy < fh,
                                sy < s,
                        ;
                        assert(0 <= (gy as int) * s) by (nonlinear_arith)
                            requires
                                s > 0,
                        ;
                    }
                    let y = py + gy * scale + sy;
                    let mut sx: usize = 0;
                    while sx < scale
                        invariant
                            self.wf(),
                            self.width == w,
                            self.height == h,
                            s == clamp_scale(style.scale),
                            scale == s,
                            fw == font.spec_width(),
                            fh == font.spec_height(),
                            px + fw * s <= usize::MAX + 1,
                            gy < fh,
                            gx < fw,
                            sy < scale,
                            sx <= scale,
                            y == py + gy * s + sy,
                            color == glyph_color(*font, index, gx as int, gy as int, style),
                            blit_progress(before, self.pixels@, w, h, *font, index, px as int, py as int, style, gy as int, gx as int, sy as int, sx as int),
                        decreases scale - sx,
                    {
                        proof {
                            assert((gx as int) * s + (sx as int) < (fw as int) * s) by (nonlinear_arith)
                                requires
                                    gx < fw,
                                    sx < s,
                            ;
                            assert(0 <= (gx as int) * s) by (nonlinear_arith)
                                requires
                                    s > 0,
                            ;
                        }
                        let x = px + gx * scale + sx;
                        let ghost prev = self.pixels@;
                        self.put(x, y, color);
                        proof {
                            let now = self.pixels@;
                            assert forall|i: int| w * h <= i < before.len() implies now[i] == before[i] by {
                                if x < w && y < h {
                                    lemma_pixel_index_bound(w, h, x as int, y as int);
                                }
                            }
                            assert forall|xx: int, yy: int| 0 <= xx < w && 0 <= yy < h implies #[trigger] pixel_at(now, w, xx, yy) == if painted(xx, yy, px as int, py as int, s, fw as int, fh as int, gy as int, gx as int, sy as int, sx + 1) {
                                glyph_color(*font, index, (xx - px) / s, (yy - py) / s, style)
                            } else {
                                pixel_at(before, w, xx, yy)
                            } by {
                                lemma_painted_step(xx, yy, px as int, py as int, s, fw as int, fh as int, gy as int, gx as int, sy as int, sx as int);
                                assert(pixel_at(prev, w, xx, yy) == if painted(xx, yy, px as int, py as int, s, fw as int, fh as int, gy as int, gx as int, sy as int, sx as int) {
                                    glyph_color(*font, index, (xx - px) / s, (yy - py) / s, style)
                                } else {
                                    pixel_at(before, w, xx, yy)
                                });
                                lemma_pixel_index_bound(w, h, xx, yy);
                                if xx == x && yy == y {
                                    vstd::arithmetic::div_mod::lemma_fundamental_div_mod_converse(xx - px, s, gx as int, sx as int);
                                    vstd::arithmetic::div_mod::lemma_fundamental_div_mod_converse(yy - py, s, gy as int, sy as int);
                                    assert(pixel_at(now, w, xx, yy) == color);
                                    assert(painted(xx, yy, px as int, py as int, s, fw as int, fh as int, gy as int, gx as int, sy as int, sx + 1));
                                } else if x < w && y < h {
                                    lemma_pixel_index_bound(w, h, x as int, y as int);
                                    if yy * w + xx == (y as int) * w + (x as int) {
                                        lemma_pixel_index_unique(w, xx, yy, x as int, y as int);
                                    }
                                    assert(pixel_at(now, w, xx, yy) == pixel_at(prev, w, xx, yy));
                                } else {
                                    assert(pixel_at(now, w, xx, yy) == pixel_at(prev, w, xx, yy));
                                }
                            }
                            assert(now.len() == before.len());
                            assert(blit_progress(before, now, w, h, *font, index, px as int, py as int, style, gy as int, gx as int, sy as int, sx + 1));
                        }
                        sx = sx + 1;
                    }
                    proof {
                        let now = self.pixels@;
                        assert forall|xx: int, yy: int| 0 <= xx < w && 0 <= yy < h implies #[trigger] pixel_at(now, w, xx, yy) == if painted(xx, yy, px as int, py as int, s, fw as int, fh as int, gy as int, gx as int, sy + 1, 0) {
                            glyph_color(*font, index, (xx - px) / s, (yy - py) / s, style)
                        } else {
                            pixel_at(before, w, xx, yy)
                        } by {
                            lemma_painted_carry_sx(xx, yy, px as int, py as int, s, fw as int, fh as int, gy as int, gx as int, sy as int);
                        }
                    }
                    sy = sy + 1;
                }
                proof {
                    let now = self.pixels@;
                    assert forall|xx: int, yy: int| 0 <= xx < w && 0 <= yy < h implies #[trigger] pixel_at(now, w, xx, yy) == if painted(xx, yy, px as int, py as int, s, fw as int, fh as int, gy as int, gx + 1, 0, 0) {
                        glyph_color(*font, index, (xx - px) / s, (yy - py) / s, style)
                    } else {
                        pixel_at(before, w, xx, yy)
                    } by {
                        lemma_painted_carry_sy(xx, yy, px as int, py as int, s, fw as int, fh as int, gy as int, gx as int);
                    }
                }
                gx = gx + 1;
            }
            proof {
                let now = self.pixels@;
                assert forall|xx: int, yy: int| 0 <= xx < w && 0 <= yy < h implies #[trigger] pixel_at(now, w, xx, yy) == if painted(xx, yy, px as int, py as int, s, fw as int, fh as int, gy + 1, 0, 0, 0) {
                    glyph_color(*font, index, (xx - px) / s, (yy - py) / s, style)
                } else {
                    pixel_at(before, w, xx, yy)
                } by {
                    lemma_painted_carry_gx(xx, yy, px as int, py as int, s, fw as int, fh as int, gy as int);
                }
            }
            gy = gy + 1;
        }
        proof {
            let now = self.pixels@;
            assert forall|xx: int, yy: int| 0 <= xx < w && 0 <= yy < h implies #[trigger] pixel_at(now, w, xx, yy) == if index < font.spec_glyph_count() && in_glyph_box(xx, yy, px as int, py as int, s, fw as int, fh as int) {
                glyph_color(*font, index, (xx - px) / s, (yy - py) / s, style)
            } else {
                pixel_at(before, w, xx, yy)
            } by {
                lemma_painted_carry_gx(xx, yy, px as int, py as int, s, fw as int, fh as int, fh as int);
            }
        }
    }
}

// ------------------------------------------------------- glyph blitting --
/// Pixel `(x, y)` of a row-major buffer `w` pixels wide.
pub open spec fn pixel_at(p: Seq<u32>, w: int, x: int, y: int) -> u32 {
    p[y * w + x]
}

/// Lexicographic `(a, b, c, d) < (e, f, g, h)`.
pub open spec fn lex4(a: int, b: int, c: int, d: int, e: int, f: int, g: int, h: int) -> bool {
    a < e || (a == e && (b < f || (b == f && (c < g || (c == g && d < h)))))
}

/// Screen pixel `(x, y)` belongs to the `fw` by `fh` glyph box scaled by `s`
/// at `(px, py)`.
pub open spec fn in_glyph_box(x: int, y: int, px: int, py: int, s: int, fw: int, fh: int) -> bool {
    &&& x >= px
    &&& y >= py
    &&& (x - px) / s < fw
    &&& (y - py) / s < fh
}

/// Screen pixel `(x, y)` of the glyph box is painted once the blit has
/// reached glyph row `gy`, column `gx`, sub-row `sy`, sub-column `sx`.
pub open spec fn painted(
    x: int,
    y: int,
    px: int,
    py: int,
    s: int,
    fw: int,
    fh: int,
    gy: int,
    gx: int,
    sy: int,
    sx: int,
) -> bool {
    &&& in_glyph_box(x, y, px, py, s, fw, fh)
    &&& lex4((y - py) / s, (x - px) / s, (y - py) % s, (x - px) % s, gy, gx, sy, sx)
}

/// Color of font pixel `(gx, gy)`: foreground where the glyph bit is set.
pub open spec fn glyph_color(font: Font, index: u32, gx: int, gy: int, style: GlyphStyle) -> u32 {
    if font.glyph_pixel_spec(index, gx as u32, gy as u32) == Some(true) {
        pack_spec(style.fg)
    } else {
        pack_spec(style.bg)
    }
}

/// `after` is `before` with glyph `index` painted at `(px, py)`, each font
/// pixel drawn as a `scale` by `scale` square, clipped to the `w` by `h`
/// surface; nothing is drawn when `index` is not a glyph of the font.
pub open spec fn glyph_blitted(
    before: Seq<u32>,
    after: Seq<u32>,
    w: int,
    h: int,
    font: Font,
    index: u32,
    px: int,
    py: int,
    style: GlyphStyle,
) -> bool {
    let s = clamp_scale(style.scale);
    &&& after.len() == before.len()
    &&& forall|i: int| w * h <= i < before.len() ==> after[i] == before[i]
    &&& forall|x: int, y: int|
        0 <= x < w && 0 <= y < h ==> #[trigger] pixel_at(after, w, x, y) == if index
            < font.spec_glyph_count() && in_glyph_box(
            x,
            y,
            px,
            py,
            s,
            font.spec_width() as int,
            font.spec_height() as int,
        ) {
            glyph_color(font, index, (x - px) / s, (y - py) / s, style)
        } else {
            pixel_at(before, w, x, y)
        }
}

/// `(x, y) -> y * w + x` is one-to-one on the rectangle's columns.
proof fn lemma_pixel_index_unique(w: int, x1: int, y1: int, x2: int, y2: int)
    requires
        w > 0,
        0 <= x1 < w,
        0 <= x2 < w,
        y1 * w + x1 == y2 * w + x2,
    ensures
        x1 == x2 && y1 == y2,
{
    let i = y1 * w + x1;
    vstd::arithmetic::div_mod::lemma_fundamental_div_mod_converse(i, w, y1, x1);
    vstd::arithmetic::div_mod::lemma_fundamental_div_mod_converse(i, w, y2, x2);
}

/// Pixels on the rectangle sit inside its `w * h` prefix.
proof fn lemma_pixel_index_bound(w: int, h: int, x: int, y: int)
    requires
        0 <= x < w,
        0 <= y < h,
    ensures
        0 <= y * w + x < w * h,
{
    assert(0 <= y * w + x < w * h) by (nonlinear_arith)
        requires
            0 <= x < w,
            0 <= y < h,
    ;
}

/// The blit step at `(gy, gx, sy, sx)` paints exactly the screen pixel
/// `(px + gx * s + sx, py + gy * s + sy)`.
proof fn lemma_painted_step(
    x: int,
    y: int,
    px: int,
    py: int,
    s: int,
    fw: int,
    fh: int,
    gy: int,
    gx: int,
    sy: int,
    sx: int,
)
    requires
        s > 0,
        0 <= gy < fh,
        0 <= gx < fw,
        0 <= sy < s,
        0 <= sx < s,
    ensures
        painted(x, y, px, py, s, fw, fh, gy, gx, sy, sx + 1) == (painted(
            x,
            y,
            px,
            py,
            s,
            fw,
            fh,
            gy,
            gx,
            sy,
            sx,
        ) || (x == px + gx * s + sx && y == py + gy * s + sy)),
{
    if x == px + gx * s + sx && y == py + gy * s + sy {
        vstd::arithmetic::div_mod::lemma_fundamental_div_mod_converse(x - px, s, gx, sx);
        vstd::arithmetic::div_mod::lemma_fundamental_div_mod_converse(y - py, s, gy, sy);
    }
    if painted(x, y, px, py, s, fw, fh, gy, gx, sy, sx + 1) && !painted(
        x,
        y,
        px,
        py,
        s,
        fw,
        fh,
        gy,
        gx,
        sy,
        sx,
    ) {
        vstd::arithmetic::div_mod::lemma_fundamental_div_mod(x - px, s);
        vstd::arithmetic::div_mod::lemma_fundamental_div_mod(y - py, s);
        assert(s * gx == gx * s) by (nonlinear_arith);
        assert(s * gy == gy * s) by (nonlinear_arith);
    }
}

/// Finishing a sub-row moves on to the next sub-row.
proof fn lemma_painted_carry_sx(
    x: int,
    y: int,
    px: int,
    py: int,
    s: int,
    fw: int,
    fh: int,
    gy: int,
    gx: int,
    sy: int,
)
    requires
        s > 0,
    ensures
        painted(x, y, px, py, s, fw, fh, gy, gx, sy, s) == painted(
            x,
            y,
            px,
            py,
            s,
            fw,
            fh,
            gy,
            gx,
            sy + 1,
            0,
        ),
{
    vstd::arithmetic::div_mod::lemma_mod_bound(x - px, s);
    vstd::arithmetic::div_mod::lemma_mod_bound(y - py, s);
}

/// Finishing a font pixel moves on to the next font column.
proof fn lemma_painted_carry_sy(
    x: int,
    y: int,
    px: int,
    py: int,
    s: int,
    fw: int,
    fh: int,
    gy: int,
    gx: int,
)
    requires
        s > 0,
    ensures
        painted(x, y, px, py, s, fw, fh, gy, gx, s, 0) == painted(
            x,
            y,
            px,
            py,
            s,
            fw,
            fh,
            gy,
            gx + 1,
            0,
            0,
        ),
{
    vstd::arithmetic::div_mod::lemma_mod_bound(x - px, s);
    vstd::arithmetic::div_mod::lemma_mod_bound(y - py, s);
}

/// Finishing a font row moves on to the next font row; before the first
/// step nothing is painted, after the last row the whole box is.
proof fn lemma_painted_carry_gx(x: int, y: int, px: int, py: int, s: int, fw: int, fh: int, gy: int)
    requires
        s > 0,
    ensures
        painted(x, y, px, py, s, fw, fh, gy, fw, 0, 0) == painted(
            x,
            y,
            px,
            py,
            s,
            fw,
            fh,
            gy + 1,
            0,
            0,
            0,
        ),
        !painted(x, y, px, py, s, fw, fh, 0, 0, 0, 0),
        painted(x, y, px, py, s, fw, fh, fh, 0, 0, 0) == in_glyph_box(x, y, px, py, s, fw, fh),
{
    vstd::arithmetic::div_mod::lemma_mod_bound(x - px, s);
    vstd::arithmetic::div_mod::lemma_mod_bound(y - py, s);
    if x >= px && y >= py {
        vstd::arithmetic::div_mod::lemma_fundamental_div_mod(x - px, s);
        vstd::arithmetic::div_mod::lemma_fundamental_div_mod(y - py, s);
        assert((x - px) / s >= 0) by (nonlinear_arith)
            requires
                x - px >= 0,
                s > 0,
                x - px == s * ((x - px) / s) + (x - px) % s,
                (x - px) % s < s,
        ;
        assert((y - py) / s >= 0) by (nonlinear_arith)
            requires
                y - py >= 0,
                s > 0,
                y - py == s * ((y - py) / s) + (y - py) % s,
                (y - py) % s < s,
        ;
    }
}

/// Snapshot of a blit in progress: pixels beyond the rectangle untouched,
/// pixels on it painted exactly when the loop has passed them.
pub open spec fn blit_progress(
    before: Seq<u32>,
    now: Seq<u32>,
    w: int,
    h: int,
    font: Font,
    index: u32,
    px: int,
    py: int,
    style: GlyphStyle,
    gy: int,
    gx: int,
    sy: int,
    sx: int,
) -> bool {
    let s = clamp_scale(style.scale);
    let fw = font.spec_width() as int;
    let fh = font.spec_height() as int;
    &&& now.len() == before.len()
    &&& forall|i: int| w * h <= i < before.len() ==> now[i] == before[i]
    &&& forall|x: int, y: int|
        0 <= x < w && 0 <= y < h ==> #[trigger] pixel_at(now, w, x, y) == if painted(
            x,
            y,
            px,
            py,
            s,
            fw,
            fh,
            gy,
            gx,
            sy,
            sx,
        ) {
            glyph_color(font, index, (x - px) / s, (y - py) / s, style)
        } else {
            pixel_at(before, w, x, y)
        }
}

// ------------------------------------------------------------- TextGrid --
/// The abstract console: its cell buffer, geometry, cursor and the colors
/// used for blanking.
pub ghost struct GridState {
    pub cells: Seq<Cell>,
    pub cols: u32,
    pub rows: u32,
    pub row: u32,
    pub col: u32,
    pub fg: Rgb,
    pub bg: Rgb,
}

/// Buffer position of grid cell `(r, c)`.
pub open spec fn cell_index(cols: u32, r: int, c: int) -> int {
    r * cols + c
}

/// Geometry fits the buffer, the cursor row is on the grid and the cursor
/// column is at most one past the last column.
pub open spec fn grid_wf(s: GridState) -> bool {
    &&& s.cols >= 1
    &&& s.rows >= 1
    &&& s.cols * s.rows <= s.cells.len()
    &&& s.row < s.rows
    &&& s.col <= s.cols
}

/// The buffer after shifting every cell up one grid row (the whole buffer
/// moves by `cols`) and blanking the bottom grid row.
pub open spec fn scrolled_cells(s: GridState) -> Seq<Cell> {
    let start = (s.rows - 1) * s.cols;
    Seq::new(
        s.cells.len(),
        |i: int|
            if start <= i < start + s.cols {
                blank_cell(s.fg, s.bg)
            } else if i + s.cols < s.cells.len() {
                s.cells[i + s.cols]
            } else {
                s.cells[i]
            },
    )
}

/// Start of the next row; scrolls when the cursor is on the last row.
pub open spec fn linefeed_spec(s: GridState) -> GridState {
    if s.row + 1 >= s.rows {
        GridState { cells: scrolled_cells(s), col: 0, ..s }
    } else {
        GridState { row: (s.row + 1) as u32, col: 0, ..s }
    }
}

/// One character emitted at the cursor: `\n` starts the next row, `\r`
/// returns to column 0, `\t` moves to the next tab stop (at most the column
/// count), anything else is stored and advances the cursor, wrapping at the
/// last column.
pub open spec fn put_spec(s: GridState, c: char, fg: Rgb, bg: Rgb) -> GridState {
    if c == '\n' {
        linefeed_spec(s)
    } else if c == '\r' {
        GridState { col: 0, ..s }
    } else if c == '\t' {
        let next = (s.col / TAB_WIDTH + 1) * TAB_WIDTH;
        GridState { col: if next < s.cols { next as u32 } else { s.cols }, ..s }
    } else {
        let written = GridState {
            cells: s.cells.update(cell_index(s.cols, s.row as int, s.col as int), Cell { glyph: c, fg, bg }),
            col: (s.col + 1) as u32,
            ..s
        };
        if written.col >= s.cols {
            linefeed_spec(written)
        } else {
            written
        }
    }
}

/// Whether column `k` is a tab stop.
pub open spec fn is_tab_stop(k: int) -> bool {
    k % (TAB_WIDTH as int) == 0
}

/// A tab writes nothing and stays on its row; it moves the cursor to the
/// first tab stop (a multiple of `TAB_WIDTH`) past the cursor, or to the
/// column count when that stop lies beyond the last column. So the cursor
/// never moves back, moves forward from any column on the grid, passes no
/// tab stop, and lands on a stop unless it lands at the column count.
pub proof fn lemma_tab_moves_to_next_stop(s: GridState, fg: Rgb, bg: Rgb)
    requires
        grid_wf(s),
    ensures
        ({
            let t = put_spec(s, '\t', fg, bg);
            &&& t.cells == s.cells
            &&& t.row == s.row
            &&& s.col <= t.col <= s.cols
            &&& s.col < s.cols ==> s.col < t.col <= s.col + TAB_WIDTH
            &&& t.col < s.cols ==> is_tab_stop(t.col as int)
            &&& forall|k: int| s.col < k < t.col ==> !#[trigger] is_tab_stop(k)
        }),
{
    let c = s.col as int;
    let q = c / 8;
    let next = (q + 1) * 8;
    vstd::arithmetic::div_mod::lemma_fundamental_div_mod(c, 8);
    assert(c < next <= c + 8);
    assert(next % 8 == 0) by (nonlinear_arith)
        requires
            next == (q + 1) * 8,
    ;
    assert forall|k: int| c < k < next implies !#[trigger] is_tab_stop(k) by {
        if k % 8 == 0 {
            vstd::arithmetic::div_mod::lemma_fundamental_div_mod(k, 8);
            let m = k / 8;
            assert(q < m < q + 1) by (nonlinear_arith)
                requires
                    k == 8 * m,
                    c == 8 * q + c % 8,
                    0 <= c % 8 < 8,
                    c < k < (q + 1) * 8,
            ;
        }
    }
}

/// A line feed returns the cursor to column 0 of the next row. On the last
/// row the cursor stays there and the text moves up instead: every row
/// takes the contents of the row below it and the last row is blanked.
/// A carriage return only moves the cursor to column 0.
pub proof fn lemma_newline_moves_down_or_scrolls(s: GridState, fg: Rgb, bg: Rgb)
    requires
        grid_wf(s),
    ensures
        ({
            let t = put_spec(s, '\n', fg, bg);
            &&& t.col == 0
            &&& t.cells.len() == s.cells.len()
            &&& s.row + 1 < s.rows ==> t.row == s.row + 1 && t.cells == s.cells
            &&& s.row + 1 == s.rows ==> t.row == s.row && (forall|r: int, k: int|
                1 <= r < s.rows && 0 <= k < s.cols ==> #[trigger] t.cells[cell_index(
                    s.cols,
                    r - 1,
                    k,
                )] == s.cells[cell_index(s.cols, r, k)]) && (forall|k: int|
                0 <= k < s.cols ==> #[trigger] t.cells[cell_index(s.cols, s.rows - 1, k)]
                    == blank_cell(s.fg, s.bg))
        }),
        ({
            let t = put_spec(s, '\r', fg, bg);
            t.col == 0 && t.row == s.row && t.cells == s.cells
        }),
{
    if s.row + 1 == s.rows {
        let t = put_spec(s, '\n', fg, bg);
        let cols = s.cols as int;
        let rows = s.rows as int;
        assert(cols * rows == rows * cols) by (nonlinear_arith);
        assert(t.cells == scrolled_cells(s));
        assert forall|r: int, k: int| 1 <= r < s.rows && 0 <= k < s.cols implies #[trigger] t.cells[cell_index(
            s.cols,
            r - 1,
            k,
        )] == s.cells[cell_index(s.cols, r, k)] by {
            assert((r - 1) * cols + k + cols == r * cols + k) by (nonlinear_arith);
            assert(r * cols + k < (rows - 1) * cols + cols) by (nonlinear_arith)
                requires
                    r <= rows - 1,
                    k < cols,
                    cols >= 1,
            ;
            assert((rows - 1) * cols + cols == rows * cols) by (nonlinear_arith);
            assert(0 <= (r - 1) * cols) by (nonlinear_arith)
                requires
                    r >= 1,
                    cols >= 1,
            ;
        }
        assert forall|k: int| 0 <= k < s.cols implies #[trigger] t.cells[cell_index(s.cols, s.rows - 1, k)]
            == blank_cell(s.fg, s.bg) by {
            assert((rows - 1) * cols + cols == rows * cols) by (nonlinear_arith);
            assert(0 <= (rows - 1) * cols) by (nonlinear_arith)
                requires
                    rows >= 1,
                    cols >= 1,
            ;
        }
    }
}

/// An ordinary character is stored, in the given colors, in the cursor's
/// cell and nothing else is written; the cursor moves one column right,
/// or, from the last column, to column 0 of the next row (scrolling the
/// text up one row when it was the last row, so the character ends up one
/// row higher).
pub proof fn lemma_put_char_stores_at_cursor(s: GridState, c: char, fg: Rgb, bg: Rgb)
    requires
        grid_wf(s),
        c != '\n',
        c != '\r',
        c != '\t',
        s.col < s.cols,
    ensures
        ({
            let t = put_spec(s, c, fg, bg);
            let here = cell_index(s.cols, s.row as int, s.col as int);
            let cell = Cell { glyph: c, fg, bg };
            &&& t.cells.len() == s.cells.len()
            &&& s.col + 1 < s.cols ==> t.row == s.row && t.col == s.col + 1 && t.cells[here] == cell
                && (forall|i: int| 0 <= i < s.cells.len() && i != here ==> #[trigger] t.cells[i] == s.cells[i])
            &&& s.col + 1 == s.cols && s.row + 1 < s.rows ==> t.row == s.row + 1 && t.col == 0
                && t.cells[here] == cell && (forall|i: int|
                0 <= i < s.cells.len() && i != here ==> #[trigger] t.cells[i] == s.cells[i])
            &&& s.col + 1 == s.cols && s.row + 1 == s.rows && s.row >= 1 ==> t.row == s.row && t.col
                == 0 && t.cells[cell_index(s.cols, s.row - 1, s.col as int)] == cell
        }),
{
    let cols = s.cols as int;
    let rows = s.rows as int;
    let here = cell_index(s.cols, s.row as int, s.col as int);
    assert(here < cols * rows) by (nonlinear_arith)
        requires
            here == s.row * cols + s.col,
            s.row < rows,
            s.col < cols,
    ;
    assert(0 <= here) by (nonlinear_arith)
        requires
            here == s.row * cols + s.col,
            s.row >= 0,
            s.col >= 0,
            cols >= 1,
    ;
    assert(cols * rows == rows * cols) by (nonlinear_arith);
    if s.col + 1 == s.cols && s.row + 1 == s.rows && s.row >= 1 {
        let written = GridState {
            cells: s.cells.update(here, Cell { glyph: c, fg, bg }),
            col: (s.col + 1) as u32,
            ..s
        };
        let up = cell_index(s.cols, s.row - 1, s.col as int);
        assert(up + cols == here) by (nonlinear_arith)
            requires
                up == (s.row - 1) * cols + s.col,
                here == s.row * cols + s.col,
        ;
        assert(up < (rows - 1) * cols) by (nonlinear_arith)
            requires
                up == (s.row - 1) * cols + s.col,
                s.row == rows - 1,
                s.col < cols,
        ;
        assert(0 <= up) by (nonlinear_arith)
            requires
                up == (s.row - 1) * cols + s.col,
                s.row >= 1,
                s.col >= 0,
                cols >= 1,
        ;
        assert(scrolled_cells(written)[up] == written.cells[up + cols]);
    }
}

/// What `put` needs to run without fault: an ordinary character needs its
/// cursor cell inside the buffer, a tab needs its stop to fit a `u32`.
pub open spec fn put_allowed(s: GridState, c: char) -> bool {
    if c == '\n' || c == '\r' {
        true
    } else if c == '\t' {
        (s.col / TAB_WIDTH + 1) * TAB_WIDTH <= u32::MAX
    } else {
        cell_index(s.cols, s.row as int, s.col as int) < s.cells.len() && s.col < u32::MAX
    }
}

/// `after` is `before` with the `n` positions from `base` on holding the
/// first `n` characters of `text` in `fg`/`bg`.
pub open spec fn text_written(
    before: Seq<Cell>,
    after: Seq<Cell>,
    base: int,
    n: int,
    text: Seq<char>,
    fg: Rgb,
    bg: Rgb,
) -> bool {
    &&& after.len() == before.len()
    &&& forall|i: int|
        0 <= i < before.len() ==> #[trigger] after[i] == if base <= i < base + n {
            Cell { glyph: text[i - base], fg, bg }
        } else {
            before[i]
        }
}

/// Row that `set_text` writes: `row` clamped onto the grid.
pub open spec fn text_row(g: GridState, row: u32) -> u32 {
    if row < g.rows { row } else { (g.rows - 1) as u32 }
}

/// How many characters of `text` fit on one grid row.
pub open spec fn text_span(g: GridState, text: Seq<char>) -> int {
    if text.len() < g.cols { text.len() as int } else { g.cols as int }
}

/// Cursor column after `set_text`: past the text, clamped into the grid.
pub open spec fn text_cursor_col(g: GridState, text: Seq<char>) -> u32 {
    let count = text.len() as u32;
    let c = if count < g.cols { count } else { g.cols };
    if c < g.cols { c } else { (g.cols - 1) as u32 }
}

/// A rectangular, cursor-tracked console over an owned cell buffer. Writing
/// past the last column wraps; writing past the last row scrolls.
pub struct TextGrid {
    cells: Vec<Cell>,
    cols: u32,
    rows: u32,
    row: u32,
    col: u32,
    default_fg: Rgb,
    default_bg: Rgb,
}

impl View for TextGrid {
    type V = GridState;

    closed spec fn view(&self) -> GridState {
        GridState {
            cells: self.cells@,
            cols: self.cols,
            rows: self.rows,
            row: self.row,
            col: self.col,
            fg: self.default_fg,
            bg: self.default_bg,
        }
    }
}

pub open spec fn default_fg() -> Rgb {
    Rgb { r: 0xC0, g: 0xC0, b: 0xC0 }
}

pub open spec fn default_bg() -> Rgb {
    Rgb { r: 0, g: 0, b: 0 }
}

impl TextGrid {
    /// Wraps `cells` as a `cols`-by-`rows` console with every cell blanked in
    /// light gray on black. Returns `None` when the buffer cannot hold
    /// `cols * rows` cells.
    pub fn new(cells: Vec<Cell>, cols: u32, rows: u32) -> (r: Option<Self>)
        ensures
            r is None <==> (cols == 0 || rows == 0 || cols * rows > cells@.len()),
            r matches Some(g) ==> grid_wf(g@) && g@ == (GridState {
                cells: Seq::new(cells@.len(), |i: int| blank_cell(default_fg(), default_bg())),
                cols,
                rows,
                row: 0,
                col: 0,
                fg: default_fg(),
                bg: default_bg(),
            }),
    {
        let len = cells.len();
        let needed = match (cols as usize).checked_mul(rows as usize) {
            Some(n) => n,
            None => {
                return None;
            },
        };
        if cols == 0 || rows == 0 || needed > len {
            return None;
        }
        let mut grid = TextGrid {
            cells,
            cols,
            rows,
            row: 0,
            col: 0,
            default_fg: Rgb::new(0xC0, 0xC0, 0xC0),
            default_bg: Rgb::new(0, 0, 0),
        };
        grid.clear_defaults();
        assert(grid.cells@ =~= Seq::new(
            grid.cells@.len(),
            |i: int| blank_cell(default_fg(), default_bg()),
        ));
        Some(grid)
    }

    /// Clears every cell to `' '` in `fg`/`bg`, makes those the blanking
    /// colors and homes the cursor.
    pub fn clear(&mut self, fg: Rgb, bg: Rgb)
        requires
            grid_wf(old(self)@),
        ensures
            final(self)@ == (GridState {
                cells: Seq::new(old(self)@.cells.len(), |i: int| blank_cell(fg, bg)),
                row: 0,
                col: 0,
                fg,
                bg,
                ..old(self)@
            }),
            grid_wf(final(self)@),
    {
        self.default_fg = fg;
        self.default_bg = bg;
        self.clear_defaults();
        self.row = 0;
        self.col = 0;
        assert(self.cells@ =~= Seq::new(old(self)@.cells.len(), |i: int| blank_cell(fg, bg)));
    }

    fn clear_defaults(&mut self)
        ensures
            final(self).cells@.len() == old(self).cells@.len(),
            forall|i: int|
                0 <= i < final(self).cells@.len() ==> final(self).cells@[i] == blank_cell(
                    old(self).default_fg,
                    old(self).default_bg,
                ),
            final(self).cols == old(self).cols,
            final(self).rows == old(self).rows,
            final(self).row == old(self).row,
            final(self).col == old(self).col,
            final(self).default_fg == old(self).default_fg,
            final(self).default_bg == old(self).default_bg,
    {
        let blank = Cell::blank(self.default_fg, self.default_bg);
        let n = self.cells.len();
        let mut i: usize = 0;
        while i < n
            invariant
                n == self.cells@.len(),
                n == old(self).cells@.len(),
                i <= n,
                blank == blank_cell(old(self).default_fg, old(self).default_bg),
                forall|j: int| 0 <= j < i ==> self.cells@[j] == blank,
                self.cols == old(self).cols,
                self.rows == old(self).rows,
                self.row == old(self).row,
                self.col == old(self).col,
                self.default_fg == old(self).default_fg,
                self.default_bg == old(self).default_bg,
            decreases n - i,
        {
            self.cells.set(i, blank);
            i = i + 1;
        }
    }

    pub fn cols(&self) -> (c: u32)
        ensures
            c == self@.cols,
    {
        self.cols
    }

    pub fn rows(&self) -> (r: u32)
        ensures
            r == self@.rows,
    {
        self.rows
    }

    pub fn cursor_row(&self) -> (r: u32)
        ensures
            r == self@.row,
    {
        self.row
    }

    pub fn cursor_col(&self) -> (c: u32)
        ensures
            c == self@.col,
    {
        self.col
    }

    /// The cell buffer.
    pub fn cells(&self) -> (c: &[Cell])
        ensures
            c@ == self@.cells,
    {
        self.cells.as_slice()
    }

    /// Moves the cursor; coordinates are clamped into the grid.
    pub fn set_cursor(&mut self, row: u32, col: u32)
        requires
            grid_wf(old(self)@),
        ensures
            final(self)@ == (GridState {
                row: if row < old(self)@.rows { row } else { (old(self)@.rows - 1) as u32 },
                col: if col < old(self)@.cols { col } else { (old(self)@.cols - 1) as u32 },
                ..old(self)@
            }),
            grid_wf(final(self)@),
    {
        let max_row = self.rows - 1;
        let max_col = self.cols - 1;
        self.row = if row < max_row {
            row
        } else {
            max_row
        };
        self.col = if col < max_col {
            col
        } else {
            max_col
        };
    }

    fn index(&self, row: u32, col: u32) -> (i: usize)
        requires
            cell_index(self.cols, row as int, col as int) < self.cells@.len(),
        ensures
            i == cell_index(self.cols, row as int, col as int),
    {
        let len = self.cells.len();
        proof {
            assert(0 <= (row as int) * (self.cols as int)) by (nonlinear_arith);
        }
        row as usize * self.cols as usize + col as usize
    }

    /// The cell at `(row, col)`; `None` when out of range.
    pub fn cell(&self, row: u32, col: u32) -> (r: Option<Cell>)
        requires
            grid_wf(self@),
        ensures
            r == if row < self@.rows && col < self@.cols {
                Some(self@.cells[cell_index(self@.cols, row as int, col as int)])
            } else {
                None
            },
    {
        if row >= self.rows || col >= self.cols {
            return None;
        }
        proof {
            lemma_cell_in_buffer(self@, row as int, col as int);
        }
        Some(self.cells[self.index(row, col)])
    }

    /// Overwrites the cell at `(row, col)`; out-of-range positions are
    /// ignored.
    pub fn set_cell(&mut self, row: u32, col: u32, value: Cell)
        requires
            grid_wf(old(self)@),
        ensures
            final(self)@ == if row < old(self)@.rows && col < old(self)@.cols {
                GridState {
                    cells: old(self)@.cells.update(
                        cell_index(old(self)@.cols, row as int, col as int),
                        value,
                    ),
                    ..old(self)@
                }
            } else {
                old(self)@
            },
            grid_wf(final(self)@),
    {
        if row < self.rows && col < self.cols {
            proof {
                lemma_cell_in_buffer(self@, row as int, col as int);
            }
            let i = self.index(row, col);
            self.cells.set(i, value);
        }
    }

    /// Writes `s` at `row` (clamped onto the grid), column 0, replacing that
    /// row's first cells (at most one row's worth). The cursor is left past
    /// the final character, clamped into the grid.
    pub fn set_text(&mut self, row: u32, s: &str, fg: Rgb, bg: Rgb)
        requires
            grid_wf(old(self)@),
        ensures
            final(self)@ == (GridState {
                cells: final(self)@.cells,
                row: text_row(old(self)@, row),
                col: text_cursor_col(old(self)@, s@),
                ..old(self)@
            }),
            text_written(
                old(self)@.cells,
                final(self)@.cells,
                cell_index(old(self)@.cols, text_row(old(self)@, row) as int, 0),
                text_span(old(self)@, s@),
                s@,
                fg,
                bg,
            ),
            grid_wf(final(self)@),
    {
        let ghost g = self@;
        let max_row = self.rows - 1;
        let row = if row < max_row {
            row
        } else {
            max_row
        };
        let len = s.unicode_len();
        let cols = self.cols as usize;
        let n = if len < cols {
            len
        } else {
            cols
        };
        proof {
            lemma_cell_in_buffer(g, row as int, 0);
            assert((row as int) * (g.cols as int) + (g.cols as int) <= (g.cols as int) * (
            g.rows as int)) by (nonlinear_arith)
                requires
                    row < g.rows,
            ;
        }
        let base = self.index(row, 0);
        let total = self.cells.len();
        let mut col: usize = 0;
        while col < n
            invariant
                grid_wf(g),
                self@ == (GridState { cells: self@.cells, ..g }),
                self.cells@.len() == g.cells.len(),
                n <= cols,
                cols == g.cols,
                n <= s@.len(),
                base == cell_index(g.cols, row as int, 0),
                base + cols <= g.cells.len(),
                total == g.cells.len(),
                col <= n,
                forall|i: int|
                    0 <= i < g.cells.len() ==> self.cells@[i] == if base <= i < base + col {
                        Cell { glyph: s@[i - base], fg, bg }
                    } else {
                        g.cells[i]
                    },
            decreases n - col,
        {
            let c = s.get_char(col);
            self.cells.set(base + col, Cell { glyph: c, fg, bg });
            col = col + 1;
        }
        let count = len as u32;
        let c = if count < self.cols {
            count
        } else {
            self.cols
        };
        let ghost written = self.cells@;
        self.set_cursor(row, c);
    }

    /// Emits one character at the cursor, applying control codes and
    /// auto-wrapping/scrolling. `\n` moves to the start of the next row,
    /// `\r` to the start of the current one, `\t` to the next tab stop.
    pub fn put(&mut self, c: char, fg: Rgb, bg: Rgb)
        requires
            grid_wf(old(self)@),
            put_allowed(old(self)@, c),
        ensures
            final(self)@ == put_spec(old(self)@, c, fg, bg),
            grid_wf(final(self)@),
    {
        if c == '\n' {
            self.linefeed();
        } else if c == '\r' {
            self.col = 0;
        } else if c == '\t' {
            let next = (self.col / TAB_WIDTH + 1) * TAB_WIDTH;
            self.col = if next < self.cols {
                next
            } else {
                self.cols
            };
        } else {
            let i = self.index(self.row, self.col);
            self.cells.set(i, Cell { glyph: c, fg, bg });
            self.col = self.col + 1;
            if self.col >= self.cols {
                self.linefeed();
            }
        }
    }

    fn linefeed(&mut self)
        requires
            old(self)@.cols >= 1,
            old(self)@.rows >= 1,
            old(self)@.cols * old(self)@.rows <= old(self)@.cells.len(),
            old(self)@.row < old(self)@.rows,
        ensures
            final(self)@ == linefeed_spec(old(self)@),
    {
        self.col = 0;
        if self.row + 1 >= self.rows {
            self.scroll_up();
        } else {
            self.row = self.row + 1;
        }
    }

    /// Shifts every row up one, blanking the bottom row.
    pub fn scroll_up(&mut self)
        requires
            old(self)@.cols >= 1,
            old(self)@.rows >= 1,
            old(self)@.cols * old(self)@.rows <= old(self)@.cells.len(),
        ensures
            final(self)@ == (GridState { cells: scrolled_cells(old(self)@), ..old(self)@ }),
    {
        let ghost g = self@;
        let cols = self.cols as usize;
        let len = self.cells.len();
        proof {
            assert((g.cols as int) <= (g.cols as int) * (g.rows as int)) by (nonlinear_arith)
                requires
                    g.rows >= 1,
                    g.cols >= 1,
            ;
        }
        let mut i: usize = 0;
        while i < len - cols
            invariant
                self@ == (GridState { cells: self@.cells, ..g }),
                self.cells@.len() == len,
                len == g.cells.len(),
                cols == g.cols,
                cols <= len,
                i <= len - cols,
                forall|j: int|
                    0 <= j < len ==> self.cells@[j] == if j < i {
                        g.cells[j + cols]
                    } else {
                        g.cells[j]
                    },
            decreases len - cols - i,
        {
            let moved = self.cells[i + cols];
            self.cells.set(i, moved);
            i = i + 1;
        }
        let blank = Cell::blank(self.default_fg, self.default_bg);
        proof {
            assert(((g.rows as int) - 1) * (g.cols as int) + (g.cols as int) == (g.rows as int) * (
            g.cols as int)) by (nonlinear_arith);
            assert(0 <= ((g.rows as int) - 1) * (g.cols as int)) by (nonlinear_arith)
                requires
                    g.rows >= 1,
            ;
        }
        let start = (self.rows as usize - 1) * cols;
        let mut k: usize = 0;
        while k < cols
            invariant
                self@ == (GridState { cells: self@.cells, ..g }),
                self.cells@.len() == len,
                len == g.cells.len(),
                cols == g.cols,
                start == (g.rows - 1) * g.cols,
                start + cols <= len,
                blank == blank_cell(g.fg, g.bg),
                k <= cols,
                forall|j: int|
                    0 <= j < len ==> self.cells@[j] == if start <= j < start + k {
                        blank
                    } else if j + cols < len {
                        g.cells[j + cols]
                    } else {
                        g.cells[j]
                    },
            decreases cols - k,
        {
            self.cells.set(start + k, blank);
            k = k + 1;
        }
        assert(self.cells@ =~= scrolled_cells(g));
    }
}

/// A grid cell on the grid lies inside the buffer.
pub proof fn lemma_cell_in_buffer(s: GridState, r: int, c: int)
    requires
        grid_wf(s),
        0 <= r < s.rows,
        0 <= c < s.cols,
    ensures
        0 <= cell_index(s.cols, r, c) < s.cells.len(),
{
    assert(0 <= r * (s.cols as int)) by (nonlinear_arith)
        requires
            0 <= r,
    ;
    assert(r * (s.cols as int) + c < (s.cols as int) * (s.rows as int)) by (nonlinear_arith)
        requires
            0 <= r < s.rows,
            0 <= c < s.cols,
    ;
}

} // verus!
