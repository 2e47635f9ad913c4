//! The graphical front end's pixel and key plumbing: the render buffer's
//! pixel type with its source-over blend and its encoding into the
//! framebuffer's native layout, the blit of a rendered frame onto the
//! framebuffer, and the translation of kernel key events into the GUI
//! toolkit's keys.
use vstd::prelude::*;
use crate::api::{Key, KeyEvent};
use crate::chars::ascii_graphic;
use crate::framebuffer::{
    byte_col, byte_lane, byte_row, channel_word, field_max, frame_wf, in_bounds, le_byte,
    lemma_byte_owner, lemma_pixel_span, pixel_offset, with_pixel, ChannelMask, FrameBuffer,
    FrameView,
};

verus! {

/// The framebuffer layout captured for rendering: size, pixel width and
/// channel fields.
#[derive(Clone, Copy, Debug, PartialEq, Eq, Structural)]
pub struct FbLayout {
    pub width: u32,
    pub height: u32,
    pub bytes_per_pixel: usize,
    pub red_size: u8,
    pub red_shift: u8,
    pub green_size: u8,
    pub green_shift: u8,
    pub blue_size: u8,
    pub blue_shift: u8,
}

impl FbLayout {
    /// The layout of `fb`.
    pub fn of(fb: &FrameBuffer) -> (l: Self)
        requires
            frame_wf(fb@),
        ensures
            l.width == fb@.width && l.height == fb@.height,
            l.bytes_per_pixel == fb@.bytes_per_pixel,
            l.red_size == fb@.red.size && l.red_shift == fb@.red.shift,
            l.green_size == fb@.green.size && l.green_shift == fb@.green.shift,
            l.blue_size == fb@.blue.size && l.blue_shift == fb@.blue.shift,
    {
        let red = fb.channel(0);
        let green = fb.channel(1);
        let blue = fb.channel(2);
        FbLayout {
            width: fb.width(),
            height: fb.height(),
            bytes_per_pixel: fb.bytes_per_pixel(),
            red_size: red.size,
            red_shift: red.shift,
            green_size: green.size,
            green_shift: green.shift,
            blue_size: blue.size,
            blue_shift: blue.shift,
        }
    }
}

/// A render-buffer pixel: a premultiplied RGBA value accumulated across
/// frames, encoded to the framebuffer's layout when blitted.
#[derive(Clone, Copy, Debug, Default, PartialEq, Eq, Structural)]
pub struct FbPixel {
    pub red: u8,
    pub green: u8,
    pub blue: u8,
    pub alpha: u8,
}

/// A premultiplied RGBA color drawn over a pixel.
#[derive(Clone, Copy, Debug, PartialEq, Eq, Structural)]
pub struct PremultipliedRgba {
    pub red: u8,
    pub green: u8,
    pub blue: u8,
    pub alpha: u8,
}

/// Every channel field of `l` can be formed and holds an 8-bit value scaled
/// to it, for the values of `p`.
pub open spec fn pixel_encodable(l: FbLayout, p: FbPixel) -> bool {
    &&& 1 <= l.red_size < 64 && l.red_shift < 64
    &&& 1 <= l.green_size < 64 && l.green_shift < 64
    &&& 1 <= l.blue_size < 64 && l.blue_shift < 64
    &&& (p.red as int) * field_max(l.red_size) <= u64::MAX
    &&& (p.green as int) * field_max(l.green_size) <= u64::MAX
    &&& (p.blue as int) * field_max(l.blue_size) <= u64::MAX
}

/// The native pixel word of `p` in layout `l`: each channel scaled to its
/// field and placed at its shift; the framebuffer has no alpha.
pub open spec fn pixel_word(l: FbLayout, p: FbPixel) -> u64 {
    channel_word(ChannelMask { size: l.red_size, shift: l.red_shift }, p.red) | channel_word(
        ChannelMask { size: l.green_size, shift: l.green_shift },
        p.green,
    ) | channel_word(ChannelMask { size: l.blue_size, shift: l.blue_shift }, p.blue)
}

/// `base` scaled by the uncovered share `255 - alpha` of a layer on top.
pub open spec fn under(base: u8, alpha: u8) -> int {
    (base as int) * (255 - alpha) / 255
}

/// `p` with `c` composited over it.
pub open spec fn blended(p: FbPixel, c: PremultipliedRgba) -> FbPixel {
    FbPixel {
        red: (under(p.red, c.alpha) + c.red) as u8,
        green: (under(p.green, c.alpha) + c.green) as u8,
        blue: (under(p.blue, c.alpha) + c.blue) as u8,
        alpha: ((p.alpha as int) + (c.alpha as int) - (p.alpha as int) * (c.alpha as int) / 255) as u8,
    }
}

/// Compositing `c` over `p` stays within a byte per color channel; always
/// so for a premultiplied `c`.
pub open spec fn blend_fits(p: FbPixel, c: PremultipliedRgba) -> bool {
    &&& under(p.red, c.alpha) + c.red <= 255
    &&& under(p.green, c.alpha) + c.green <= 255
    &&& under(p.blue, c.alpha) + c.blue <= 255
}

/// `channel` scaled by the uncovered share `255 - alpha`.
fn scale_under(channel: u8, alpha: u8) -> (r: u8)
    ensures
        r == under(channel, alpha),
{
    let a = (255 - alpha) as u16;
    assert((channel as u16) * a <= 255 * 255) by (nonlinear_arith)
        requires
            channel <= 255,
            a <= 255,
    ;
    assert((channel as int) * (a as int) / 255 <= 255) by (nonlinear_arith)
        requires
            channel <= 255,
            a <= 255,
    ;
    ((channel as u16) * a / 255) as u8
}

impl FbPixel {
    pub fn from_rgba(red: u8, green: u8, blue: u8, alpha: u8) -> (p: Self)
        ensures
            p == (FbPixel { red, green, blue, alpha }),
    {
        FbPixel { red, green, blue, alpha }
    }

    /// An opaque pixel.
    pub fn from_rgb(red: u8, green: u8, blue: u8) -> (p: Self)
        ensures
            p == (FbPixel { red, green, blue, alpha: 255 }),
    {
        Self::from_rgba(red, green, blue, 255)
    }

    /// Encodes this pixel into the framebuffer's native pixel word.
    pub fn encode(self, layout: &FbLayout) -> (w: u64)
        requires
            pixel_encodable(*layout, self),
        ensures
            w == pixel_word(*layout, self),
    {
        proof {
            vstd::bits::lemma_u64_pow2_no_overflow(layout.red_size as nat);
            vstd::bits::lemma_u64_shl_is_mul(1u64, layout.red_size as u64);
            vstd::bits::lemma_u64_pow2_no_overflow(layout.green_size as nat);
            vstd::bits::lemma_u64_shl_is_mul(1u64, layout.green_size as u64);
            vstd::bits::lemma_u64_pow2_no_overflow(layout.blue_size as nat);
            vstd::bits::lemma_u64_shl_is_mul(1u64, layout.blue_size as u64);
        }
        let max_r = (1u64 << (layout.red_size as u64)) - 1;
        let max_g = (1u64 << (layout.green_size as u64)) - 1;
        let max_b = (1u64 << (layout.blue_size as u64)) - 1;
        let r = ((self.red as u64) * max_r / 255) << (layout.red_shift as u64);
        let g = ((self.green as u64) * max_g / 255) << (layout.green_shift as u64);
        let b = ((self.blue as u64) * max_b / 255) << (layout.blue_shift as u64);
        r | g | b
    }

    /// Composites the premultiplied color `color` over this pixel.
    pub fn blend(&mut self, color: PremultipliedRgba)
        requires
            blend_fits(*old(self), color),
        ensures
            *final(self) == blended(*old(self), color),
    {
        let red = scale_under(self.red, color.alpha) + color.red;
        let green = scale_under(self.green, color.alpha) + color.green;
        let blue = scale_under(self.blue, color.alpha) + color.blue;
        let a1 = self.alpha as u16;
        let a2 = color.alpha as u16;
        assert(a1 * a2 / 255 <= a1 && a1 + a2 - a1 * a2 / 255 <= 255) by (nonlinear_arith)
            requires
                a1 <= 255,
                a2 <= 255,
        {
            assert(a1 * a2 <= 255 * a1);
            assert((255 - a1) * (255 - a2) >= 0);
            assert(a1 * a2 >= 255 * (a1 + a2 - 255));
            vstd::arithmetic::div_mod::lemma_div_is_ordered(
                255 * (a1 + a2 - 255),
                a1 * a2,
                255,
            );
            vstd::arithmetic::div_mod::lemma_div_is_ordered(a1 * a2, 255 * a1, 255);
        }
        let alpha = (a1 + a2 - a1 * a2 / 255) as u8;
        self.red = red;
        self.green = green;
        self.blue = blue;
        self.alpha = alpha;
    }
}

/// `v` with pixels `(x, y)` for `y < rows`, `x < cols` of the rendered
/// frame (rows `stride` pixels apart in `buffer`) written in layout `l`,
/// as far as they lie on the surface.
pub open spec fn blitted(
    v: FrameView,
    l: FbLayout,
    buffer: Seq<FbPixel>,
    stride: int,
    cols: int,
    rows: int,
) -> FrameView {
    blit_progress(v, l, buffer, stride, cols, rows, 0)
}

/// Progress of a blit of `cols` columns: the first `rows` rows are done,
/// and the first `done` pixels of the next one.
pub open spec fn blit_progress(
    v: FrameView,
    l: FbLayout,
    buffer: Seq<FbPixel>,
    stride: int,
    cols: int,
    rows: int,
    done: int,
) -> FrameView {
    FrameView {
        bytes: Seq::new(
            v.bytes.len(),
            |j: int|
                {
                    let r = byte_row(v, j);
                    let c = byte_col(v, j);
                    if in_bounds(v, c, r) && 0 <= c && ((r < rows && c < cols) || (r == rows && c
                        < done)) {
                        le_byte(pixel_word(l, buffer[r * stride + c]), byte_lane(v, j))
                    } else {
                        v.bytes[j]
                    }
                },
        ),
        ..v
    }
}

/// Writing the next pixel of a blit, when it lies on the surface, advances
/// the blit by one pixel; off the surface the blit advances with nothing
/// written.
proof fn lemma_blit_step(
    v: FrameView,
    l: FbLayout,
    buffer: Seq<FbPixel>,
    stride: int,
    cols: int,
    rows: int,
    done: int,
)
    requires
        frame_wf(v),
        0 <= rows,
        0 <= done < cols,
    ensures
        in_bounds(v, done, rows) ==> with_pixel(
            blit_progress(v, l, buffer, stride, cols, rows, done),
            done,
            rows,
            pixel_word(l, buffer[rows * stride + done]),
        ) == blit_progress(v, l, buffer, stride, cols, rows, done + 1),
        !in_bounds(v, done, rows) ==> blit_progress(v, l, buffer, stride, cols, rows, done)
            == blit_progress(v, l, buffer, stride, cols, rows, done + 1),
{
    let before = blit_progress(v, l, buffer, stride, cols, rows, done);
    let goal = blit_progress(v, l, buffer, stride, cols, rows, done + 1);
    if in_bounds(v, done, rows) {
        let after = with_pixel(before, done, rows, pixel_word(l, buffer[rows * stride + done]));
        assert forall|j: int| 0 <= j < v.bytes.len() implies after.bytes[j] == #[trigger] goal.bytes[j] by {
            lemma_byte_owner(v, done, rows, j);
        }
        assert(after.bytes =~= goal.bytes);
    } else {
        assert(before.bytes =~= goal.bytes);
    }
}

/// Copies a rendered frame (row-major, rows `width` pixels apart) onto the
/// framebuffer at the top-left, clipped to the captured layout's size;
/// pixels off the surface are skipped.
pub fn blit_to_framebuffer(
    fb: &mut FrameBuffer,
    layout: &FbLayout,
    buffer: &[FbPixel],
    width: u32,
    height: u32,
)
    requires
        frame_wf(old(fb)@),
        ({
            let w = if width < layout.width {
                width
            } else {
                layout.width
            };
            let h = if height < layout.height {
                height
            } else {
                layout.height
            };
            h >= 1 ==> (h - 1) * width + w <= buffer@.len() && (h - 1) * width + w <= u32::MAX
        }),
        forall|i: int| 0 <= i < buffer@.len() ==> pixel_encodable(*layout, #[trigger] buffer@[i]),
    ensures
        frame_wf(final(fb)@),
        final(fb)@ == blitted(
            old(fb)@,
            *layout,
            buffer@,
            width as int,
            (if width < layout.width {
                width
            } else {
                layout.width
            }) as int,
            (if height < layout.height {
                height
            } else {
                layout.height
            }) as int,
        ),
{
    let ghost before = fb@;
    let w = if width < layout.width {
        width
    } else {
        layout.width
    };
    let h = if height < layout.height {
        height
    } else {
        layout.height
    };
    assert(before.bytes =~= blit_progress(before, *layout, buffer@, width as int, w as int, 0, 0).bytes);
    let mut y: u32 = 0;
    while y < h
        invariant
            frame_wf(before),
            0 <= y <= h,
            h >= 1 ==> (h - 1) * width + w <= buffer@.len() && (h - 1) * width + w <= u32::MAX,
            forall|i: int| 0 <= i < buffer@.len() ==> pixel_encodable(*layout, #[trigger] buffer@[i]),
            fb@ == blit_progress(before, *layout, buffer@, width as int, w as int, y as int, 0),
        decreases h - y,
    {
        assert(y * width + w <= (h - 1) * width + w) by (nonlinear_arith)
            requires
                y < h,
        ;
        let base = y * width;
        let mut x: u32 = 0;
        while x < w
            invariant
                frame_wf(before),
                0 <= y < h,
                0 <= x <= w,
                base == y * width,
                base + w <= buffer@.len(),
                base + w <= u32::MAX,
                forall|i: int| 0 <= i < buffer@.len() ==> pixel_encodable(*layout, #[trigger] buffer@[i]),
                fb@ == blit_progress(before, *layout, buffer@, width as int, w as int, y as int, x as int),
            decreases w - x,
        {
            let pixel = buffer[(base + x) as usize];
            let word = pixel.encode(layout);
            proof {
                lemma_blit_step(before, *layout, buffer@, width as int, w as int, y as int, x as int);
            }
            let _ = fb.write_word(x, y, word);
            x = x + 1;
        }
        assert(blit_progress(before, *layout, buffer@, width as int, w as int, y as int, w as int).bytes
            =~= blit_progress(before, *layout, buffer@, width as int, w as int, y + 1, 0).bytes);
        y = y + 1;
    }
    assert(fb@.bytes =~= blitted(before, *layout, buffer@, width as int, w as int, h as int).bytes);
}

/// A key of the GUI toolkit: a character, or a named control key.
#[derive(Clone, Copy, Debug, PartialEq, Eq, Structural)]
pub enum GuiKey {
    Char(char),
    Return,
    Tab,
    Backspace,
    Escape,
    UpArrow,
    DownArrow,
    LeftArrow,
    RightArrow,
    Home,
    End,
    PageUp,
    PageDown,
    Insert,
    Delete,
    Shift,
    Control,
    Alt,
    CapsLock,
    /// Function key F1 to F24.
    F(u8),
}

/// A key event of the GUI toolkit.
#[derive(Clone, Copy, Debug, PartialEq, Eq, Structural)]
pub enum GuiKeyEvent {
    Pressed(GuiKey),
    Released(GuiKey),
}

/// The GUI key a kernel key stands for: printable ASCII and space as
/// themselves, control keys by name, F1..F24, nothing for the rest.
pub open spec fn gui_key_spec(key: Key) -> Option<GuiKey> {
    match key {
        Key::Char(c) => if ascii_graphic(c) || c == ' ' {
            Some(GuiKey::Char(c))
        } else {
            None
        },
        Key::Enter => Some(GuiKey::Return),
        Key::Tab => Some(GuiKey::Tab),
        Key::Backspace => Some(GuiKey::Backspace),
        Key::Escape => Some(GuiKey::Escape),
        Key::Up => Some(GuiKey::UpArrow),
        Key::Down => Some(GuiKey::DownArrow),
        Key::Left => Some(GuiKey::LeftArrow),
        Key::Right => Some(GuiKey::RightArrow),
        Key::Home => Some(GuiKey::Home),
        Key::End => Some(GuiKey::End),
        Key::PageUp => Some(GuiKey::PageUp),
        Key::PageDown => Some(GuiKey::PageDown),
        Key::Insert => Some(GuiKey::Insert),
        Key::Delete => Some(GuiKey::Delete),
        Key::LeftShift | Key::RightShift => Some(GuiKey::Shift),
        Key::LeftControl | Key::RightControl => Some(GuiKey::Control),
        Key::LeftAlt | Key::RightAlt => Some(GuiKey::Alt),
        Key::CapsLock => Some(GuiKey::CapsLock),
        Key::F(n) => if 1 <= n <= 24 {
            Some(GuiKey::F(n))
        } else {
            None
        },
        _ => None,
    }
}

/// Converts a kernel key to the GUI toolkit's key.
pub fn key_to_text(key: Key) -> (k: Option<GuiKey>)
    ensures
        k == gui_key_spec(key),
{
    match key {
        Key::Char(c) => {
            if crate::chars::is_ascii_graphic(c) || c == ' ' {
                Some(GuiKey::Char(c))
            } else {
                None
            }
        },
        Key::Enter => Some(GuiKey::Return),
        Key::Tab => Some(GuiKey::Tab),
        Key::Backspace => Some(GuiKey::Backspace),
        Key::Escape => Some(GuiKey::Escape),
        Key::Up => Some(GuiKey::UpArrow),
        Key::Down => Some(GuiKey::DownArrow),
        Key::Left => Some(GuiKey::LeftArrow),
        Key::Right => Some(GuiKey::RightArrow),
        Key::Home => Some(GuiKey::Home),
        Key::End => Some(GuiKey::End),
        Key::PageUp => Some(GuiKey::PageUp),
        Key::PageDown => Some(GuiKey::PageDown),
        Key::Insert => Some(GuiKey::Insert),
        Key::Delete => Some(GuiKey::Delete),
        Key::LeftShift | Key::RightShift => Some(GuiKey::Shift),
        Key::LeftControl | Key::RightControl => Some(GuiKey::Control),
        Key::LeftAlt | Key::RightAlt => Some(GuiKey::Alt),
        Key::CapsLock => Some(GuiKey::CapsLock),
        Key::F(n) => {
            if 1 <= n && n <= 24 {
                Some(GuiKey::F(n))
            } else {
                None
            }
        },
        _ => None,
    }
}

/// Maps a kernel key event to a GUI key event; `None` when the key has no
/// GUI counterpart.
pub fn map_key_event(event: KeyEvent) -> (e: Option<GuiKeyEvent>)
    ensures
        e == match event {
            KeyEvent::Press(k) => match gui_key_spec(k) {
                Some(g) => Some(GuiKeyEvent::Pressed(g)),
                None => None,
            },
            KeyEvent::Release(k) => match gui_key_spec(k) {
                Some(g) => Some(GuiKeyEvent::Released(g)),
                None => None,
            },
        },
{
    match event {
        KeyEvent::Press(key) => match key_to_text(key) {
            Some(g) => Some(GuiKeyEvent::Pressed(g)),
            None => None,
        },
        KeyEvent::Release(key) => match key_to_text(key) {
            Some(g) => Some(GuiKeyEvent::Released(g)),
            None => None,
        },
    }
}

} // verus!
