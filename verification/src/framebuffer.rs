//! Bounds-checked pixel access to a linear framebuffer whose layout the
//! loader describes: layout validation, channel encoding, pixel writes and
//! reads, rectangle fills and the boot-time color-bar self-test.
//!
//! The surface is a byte buffer owned by the [`FrameBuffer`]. Pixel words
//! are little-endian, with channel masks counted from bit 0 of the word.
use vstd::prelude::*;
use vstd::arithmetic::power2::pow2;
use crate::limine::{Framebuffer as LimineFramebuffer, MEMORY_MODEL_RGB};

verus! {

/// An 8-bit-per-channel color independent of the surface's pixel layout.
#[derive(Clone, Copy, Debug, PartialEq, Eq, Structural)]
pub struct Rgb {
    pub r: u8,
    pub g: u8,
    pub b: u8,
}

impl Rgb {
    pub fn new(r: u8, g: u8, b: u8) -> (c: Self)
        ensures
            c == (Rgb { r, g, b }),
    {
        Rgb { r, g, b }
    }
}

/// Number of vertical bars painted by the self-test.
pub const BAR_COUNT: usize = 7;

/// Color of self-test bar `index`: white, yellow, cyan, green, magenta,
/// red, blue.
pub open spec fn bar_color_spec(index: int) -> Rgb {
    if index == 0 {
        Rgb { r: 255, g: 255, b: 255 }
    } else if index == 1 {
        Rgb { r: 255, g: 255, b: 0 }
    } else if index == 2 {
        Rgb { r: 0, g: 255, b: 255 }
    } else if index == 3 {
        Rgb { r: 0, g: 255, b: 0 }
    } else if index == 4 {
        Rgb { r: 255, g: 0, b: 255 }
    } else if index == 5 {
        Rgb { r: 255, g: 0, b: 0 }
    } else {
        Rgb { r: 0, g: 0, b: 255 }
    }
}

/// Color of self-test bar `index`.
pub fn bar_color(index: usize) -> (c: Rgb)
    requires
        index < BAR_COUNT,
    ensures
        c == bar_color_spec(index as int),
{
    if index == 0 {
        Rgb::new(255, 255, 255)
    } else if index == 1 {
        Rgb::new(255, 255, 0)
    } else if index == 2 {
        Rgb::new(0, 255, 255)
    } else if index == 3 {
        Rgb::new(0, 255, 0)
    } else if index == 4 {
        Rgb::new(255, 0, 255)
    } else if index == 5 {
        Rgb::new(255, 0, 0)
    } else {
        Rgb::new(0, 0, 255)
    }
}

/// Why a framebuffer was rejected or a pixel operation refused.
#[derive(Clone, Copy, Debug, PartialEq, Eq, Structural)]
pub enum FramebufferError {
    NotRgb,
    UnsupportedLayout,
    OutOfBounds,
}

/// One color channel's field in the pixel word: `size` bits starting at
/// bit `shift`.
#[derive(Clone, Copy, Debug, PartialEq, Eq, Structural)]
pub struct ChannelMask {
    pub size: u8,
    pub shift: u8,
}

/// A channel of `size` bits at `shift` is non-empty and fits in a pixel
/// word of `bpp` bits.
pub open spec fn channel_fits(size: u8, shift: u8, bpp: u16) -> bool {
    size != 0 && shift + size <= bpp
}

/// `2^size - 1`: the all-ones value of a `size`-bit field.
pub open spec fn field_max(size: u8) -> int {
    pow2(size as nat) - 1
}

/// The bits a channel occupies in the pixel word.
pub open spec fn mask_bits(m: ChannelMask) -> u64 {
    (field_max(m.size) as u64) << (m.shift as u64)
}

/// `2^size` as a shifted one, for a field narrower than the word.
proof fn lemma_one_shl(size: u8)
    requires
        size < 64,
    ensures
        (1u64 << (size as u64)) as int == pow2(size as nat),
        1 <= pow2(size as nat) <= u64::MAX,
{
    vstd::bits::lemma_u64_pow2_no_overflow(size as nat);
    vstd::bits::lemma_u64_shl_is_mul(1u64, size as u64);
}

impl ChannelMask {
    /// A channel of `size` bits at `shift` inside a `bpp`-bit word, or
    /// `UnsupportedLayout` when it is empty or reaches past the word.
    pub fn new(size: u8, shift: u8, bpp: u16) -> (r: Result<Self, FramebufferError>)
        ensures
            r == (if channel_fits(size, shift, bpp) {
                Ok(ChannelMask { size, shift })
            } else {
                Err(FramebufferError::UnsupportedLayout)
            }),
    {
        if size == 0 || (shift as u16) + (size as u16) > bpp {
            return Err(FramebufferError::UnsupportedLayout);
        }
        Ok(ChannelMask { size, shift })
    }

    /// The bits this channel occupies in the pixel word.
    pub fn bit_mask(&self) -> (m: u64)
        requires
            self.size < 64,
            self.shift < 64,
        ensures
            m == mask_bits(*self),
    {
        proof {
            lemma_one_shl(self.size);
        }
        ((1u64 << (self.size as u64)) - 1) << (self.shift as u64)
    }
}

/// No two of the three channels share a bit.
pub open spec fn masks_disjoint(r: ChannelMask, g: ChannelMask, b: ChannelMask) -> bool {
    &&& mask_bits(r) & mask_bits(g) == 0
    &&& mask_bits(g) & mask_bits(b) == 0
    &&& mask_bits(b) & mask_bits(r) == 0
}

/// Geometry handed over by the loader, with the surface it describes,
/// awaiting validation into a [`FrameBuffer`].
pub struct FrameLayout {
    pub surface: Vec<u8>,
    pub width: u32,
    pub height: u32,
    /// Bytes per scanline.
    pub pitch: usize,
    /// Bits per pixel.
    pub bpp: u16,
    pub red_size: u8,
    pub red_shift: u8,
    pub green_size: u8,
    pub green_shift: u8,
    pub blue_size: u8,
    pub blue_shift: u8,
}

/// A layout's values, with the surface by its length.
pub ghost struct LayoutView {
    pub width: u32,
    pub height: u32,
    pub pitch: usize,
    pub bpp: u16,
    pub red: ChannelMask,
    pub green: ChannelMask,
    pub blue: ChannelMask,
    pub surface_len: nat,
}

pub open spec fn layout_view(l: &FrameLayout) -> LayoutView {
    LayoutView {
        width: l.width,
        height: l.height,
        pitch: l.pitch,
        bpp: l.bpp,
        red: ChannelMask { size: l.red_size, shift: l.red_shift },
        green: ChannelMask { size: l.green_size, shift: l.green_shift },
        blue: ChannelMask { size: l.blue_size, shift: l.blue_shift },
        surface_len: l.surface@.len(),
    }
}

/// Whole bytes per pixel, at most eight.
pub open spec fn bpp_supported(bpp: u16) -> bool {
    bpp != 0 && bpp % 8 == 0 && bpp <= 64
}

pub open spec fn channels_fit(l: LayoutView) -> bool {
    &&& channel_fits(l.red.size, l.red.shift, l.bpp)
    &&& channel_fits(l.green.size, l.green.shift, l.bpp)
    &&& channel_fits(l.blue.size, l.blue.shift, l.bpp)
}

/// A layout whose channels pass their own checks but one of which fills a
/// whole 64-bit word: its mask cannot be formed in a `u64`.
pub open spec fn layout_mask_overflows(l: LayoutView) -> bool {
    &&& bpp_supported(l.bpp)
    &&& channels_fit(l)
    &&& (l.red.size == 64 || l.green.size == 64 || l.blue.size == 64)
}

/// The layout is accepted: supported depth, channels inside the word and
/// pairwise disjoint, rows at least one scanline apart, the whole surface
/// addressable, and the surface buffer long enough to hold it.
pub open spec fn layout_accepted(l: LayoutView) -> bool {
    &&& bpp_supported(l.bpp)
    &&& channels_fit(l)
    &&& masks_disjoint(l.red, l.green, l.blue)
    &&& l.pitch >= l.width * (l.bpp / 8)
    &&& l.pitch * l.height <= usize::MAX
    &&& l.surface_len >= l.pitch * l.height
}

/// The loader's framebuffer description has usable geometry: a mapped
/// address, a non-empty surface with dimensions that fit in `u32`, and a
/// non-zero pitch that fits in `usize`.
pub open spec fn limine_geometry_ok(s: LimineFramebuffer) -> bool {
    &&& s.address != 0
    &&& s.width != 0
    &&& s.height != 0
    &&& s.width <= u32::MAX
    &&& s.height <= u32::MAX
    &&& s.pitch != 0
    &&& s.pitch <= usize::MAX
}

/// The layout read from a loader description with usable geometry.
pub open spec fn limine_layout_view(s: LimineFramebuffer, surface_len: nat) -> LayoutView {
    LayoutView {
        width: s.width as u32,
        height: s.height as u32,
        pitch: s.pitch as usize,
        bpp: s.bpp,
        red: ChannelMask { size: s.red_mask_size, shift: s.red_mask_shift },
        green: ChannelMask { size: s.green_mask_size, shift: s.green_mask_shift },
        blue: ChannelMask { size: s.blue_mask_size, shift: s.blue_mask_shift },
        surface_len,
    }
}

impl FrameLayout {
    /// Reads the geometry of the loader's description `source`, whose
    /// surface is `surface`: `NotRgb` for another memory model,
    /// `UnsupportedLayout` for unusable geometry.
    pub fn from_limine(source: &LimineFramebuffer, surface: Vec<u8>) -> (r: Result<
        FrameLayout,
        FramebufferError,
    >)
        ensures
            source.memory_model != MEMORY_MODEL_RGB ==> r matches Err(FramebufferError::NotRgb),
            source.memory_model == MEMORY_MODEL_RGB && !limine_geometry_ok(*source) ==> r matches Err(
                FramebufferError::UnsupportedLayout,
            ),
            source.memory_model == MEMORY_MODEL_RGB && limine_geometry_ok(*source) ==> (r matches Ok(
                l,
            ) && layout_view(&l) == limine_layout_view(*source, surface@.len()) && l.surface@
                == surface@),
    {
        if !source.is_rgb() {
            return Err(FramebufferError::NotRgb);
        }
        if source.address() == 0 || source.width == 0 || source.height == 0 || source.width
            > u32::MAX as u64 || source.height > u32::MAX as u64 || source.pitch == 0 {
            return Err(FramebufferError::UnsupportedLayout);
        }
        if source.pitch > usize::MAX as u64 {
            return Err(FramebufferError::UnsupportedLayout);
        }
        Ok(FrameLayout {
            surface,
            width: source.width as u32,
            height: source.height as u32,
            pitch: source.pitch as usize,
            bpp: source.bpp,
            red_size: source.red_mask_size,
            red_shift: source.red_mask_shift,
            green_size: source.green_mask_size,
            green_shift: source.green_mask_shift,
            blue_size: source.blue_mask_size,
            blue_shift: source.blue_mask_shift,
        })
    }
}

/// A captured framebuffer's state: the surface bytes and the validated
/// geometry they are read through.
pub ghost struct FrameView {
    pub bytes: Seq<u8>,
    pub width: u32,
    pub height: u32,
    pub pitch: usize,
    pub bytes_per_pixel: usize,
    pub red: ChannelMask,
    pub green: ChannelMask,
    pub blue: ChannelMask,
}

/// A channel of a validated framebuffer: non-empty, narrower than the
/// word, inside a pixel of `bytes_per_pixel` bytes.
pub open spec fn channel_ok(m: ChannelMask, bytes_per_pixel: usize) -> bool {
    1 <= m.size < 64 && m.shift + m.size <= 8 * bytes_per_pixel
}

/// The invariant of a captured framebuffer.
pub open spec fn frame_wf(v: FrameView) -> bool {
    &&& 1 <= v.bytes_per_pixel <= 8
    &&& channel_ok(v.red, v.bytes_per_pixel)
    &&& channel_ok(v.green, v.bytes_per_pixel)
    &&& channel_ok(v.blue, v.bytes_per_pixel)
    &&& masks_disjoint(v.red, v.green, v.blue)
    &&& v.width * v.bytes_per_pixel <= v.pitch
    &&& v.pitch * v.height <= usize::MAX
    &&& v.pitch * v.height <= v.bytes.len()
}

/// The framebuffer captured from an accepted layout over `bytes`.
pub open spec fn captured_view(l: LayoutView, bytes: Seq<u8>) -> FrameView {
    FrameView {
        bytes,
        width: l.width,
        height: l.height,
        pitch: l.pitch,
        bytes_per_pixel: (l.bpp / 8) as usize,
        red: l.red,
        green: l.green,
        blue: l.blue,
    }
}

/// An 8-bit channel `value` scaled to a `size`-bit field:
/// `value * (2^size - 1) / 255`, so that 0 and 255 map to the field's
/// extremes instead of being truncated.
pub open spec fn channel_level(size: u8, value: u8) -> int {
    (value as int) * field_max(size) / 255
}

/// A channel's scaled level placed at its shift.
pub open spec fn channel_word(m: ChannelMask, value: u8) -> u64 {
    (channel_level(m.size, value) as u64) << (m.shift as u64)
}

/// The pixel word for `c`: each channel's scaled level in its field.
pub open spec fn encode_spec(v: FrameView, c: Rgb) -> u64 {
    channel_word(v.red, c.r) | channel_word(v.green, c.g) | channel_word(v.blue, c.b)
}

/// Scaling each channel of `c` stays within a `u64`; always so for fields of
/// at most 56 bits.
pub open spec fn encodable(v: FrameView, c: Rgb) -> bool {
    &&& (c.r as int) * field_max(v.red.size) <= u64::MAX
    &&& (c.g as int) * field_max(v.green.size) <= u64::MAX
    &&& (c.b as int) * field_max(v.blue.size) <= u64::MAX
}

/// A scaled level is a value of its field, and the placed word lies below
/// the field's top bit.
proof fn lemma_channel_word_bound(m: ChannelMask, value: u8, bits: nat)
    requires
        1 <= m.size < 64,
        m.shift + m.size <= bits <= 64,
    ensures
        0 <= channel_level(m.size, value) <= field_max(m.size),
        channel_word(m, value) == channel_level(m.size, value) * pow2(m.shift as nat),
        channel_word(m, value) < pow2(bits),
{
    let size = m.size as nat;
    let shift = m.shift as nat;
    lemma_one_shl(m.size);
    let fm = field_max(m.size);
    assert(0 <= (value as int) * fm / 255 <= fm) by (nonlinear_arith)
        requires
            0 <= fm,
            0 <= value <= 255,
    ;
    let level = channel_level(m.size, value);
    vstd::arithmetic::power2::lemma_pow2_adds(size, shift);
    vstd::arithmetic::power2::lemma_pow2_pos(shift);
    let ps = pow2(shift);
    assert(level * ps <= pow2(size) * ps - ps) by (nonlinear_arith)
        requires
            level <= pow2(size) - 1,
            ps > 0,
    ;
    if size + shift < bits {
        vstd::arithmetic::power2::lemma_pow2_strictly_increases(size + shift, bits);
    }
    if bits < 64 {
        vstd::arithmetic::power2::lemma_pow2_strictly_increases(bits, 64);
    }
    vstd::arithmetic::power2::lemma2_to64_rest();
    vstd::bits::lemma_u64_shl_is_mul(level as u64, m.shift as u64);
}

/// An OR of words below a power of two stays below it.
proof fn lemma_or_below(x: u64, y: u64, z: u64, b: u64)
    requires
        b < 64,
        x < (1u64 << b),
        y < (1u64 << b),
        z < (1u64 << b),
    ensures
        (x | y | z) < (1u64 << b),
{
    assert((x | y | z) < (1u64 << b)) by (bit_vector)
        requires
            b < 64,
            x < (1u64 << b),
            y < (1u64 << b),
            z < (1u64 << b),
    ;
}

/// The pixel word of a color fits in the pixel's bytes.
pub proof fn lemma_encode_fits(v: FrameView, c: Rgb)
    requires
        frame_wf(v),
    ensures
        (encode_spec(v, c) as int) < pow2((8 * v.bytes_per_pixel) as nat),
{
    let bits = (8 * v.bytes_per_pixel) as nat;
    lemma_channel_word_bound(v.red, c.r, bits);
    lemma_channel_word_bound(v.green, c.g, bits);
    lemma_channel_word_bound(v.blue, c.b, bits);
    vstd::arithmetic::power2::lemma2_to64_rest();
    if bits < 64 {
        lemma_one_shl(bits as u8);
        lemma_or_below(
            channel_word(v.red, c.r),
            channel_word(v.green, c.g),
            channel_word(v.blue, c.b),
            bits as u64,
        );
    }
}

/// Byte `i` of `word`, counting from the least significant.
pub open spec fn le_byte(word: u64, i: int) -> u8 {
    ((word as nat / pow2((8 * i) as nat)) % 256) as u8
}

/// The little-endian value of the `n` bytes of `bytes` from `start` on.
pub open spec fn le_value(bytes: Seq<u8>, start: int, n: nat) -> int
    decreases n,
{
    if n == 0 {
        0
    } else {
        (bytes[start] as int) + 256 * le_value(bytes, start + 1, (n - 1) as nat)
    }
}

/// `bytes` with the low `n` bytes of `word` stored little-endian at `start`.
pub open spec fn store_word(bytes: Seq<u8>, start: int, n: int, word: u64) -> Seq<u8> {
    Seq::new(
        bytes.len(),
        |j: int|
            if start <= j < start + n {
                le_byte(word, j - start)
            } else {
                bytes[j]
            },
    )
}

/// First byte of pixel `(x, y)`.
pub open spec fn pixel_offset(v: FrameView, x: int, y: int) -> int {
    y * v.pitch + x * v.bytes_per_pixel
}

pub open spec fn in_bounds(v: FrameView, x: int, y: int) -> bool {
    0 <= x < v.width && 0 <= y < v.height
}

/// `v` with the pixel word `word` stored at `(x, y)`.
pub open spec fn with_pixel(v: FrameView, x: int, y: int, word: u64) -> FrameView {
    FrameView {
        bytes: store_word(v.bytes, pixel_offset(v, x, y), v.bytes_per_pixel as int, word),
        ..v
    }
}

/// The raw pixel word read back at `(x, y)`; `None` outside the surface.
pub open spec fn raw_pixel(v: FrameView, x: int, y: int) -> Option<u64> {
    if in_bounds(v, x, y) {
        Some(le_value(v.bytes, pixel_offset(v, x, y), v.bytes_per_pixel as nat) as u64)
    } else {
        None
    }
}

/// A pixel's bytes lie inside its row, inside the surface.
pub(crate) proof fn lemma_pixel_span(v: FrameView, x: int, y: int)
    requires
        frame_wf(v),
        in_bounds(v, x, y),
    ensures
        0 <= pixel_offset(v, x, y),
        pixel_offset(v, x, y) + v.bytes_per_pixel <= (y + 1) * v.pitch,
        (y + 1) * v.pitch <= v.pitch * v.height,
        pixel_offset(v, x, y) + v.bytes_per_pixel <= v.bytes.len(),
{
    let p = v.pitch as int;
    let b = v.bytes_per_pixel as int;
    let w = v.width as int;
    let h = v.height as int;
    assert(0 <= y * p + x * b && y * p + x * b + b <= (y + 1) * p && (y + 1) * p <= p * h)
        by (nonlinear_arith)
        requires
            0 <= x < w,
            0 <= y < h,
            w * b <= p,
            1 <= b,
    ;
}

/// Two distinct pixels own disjoint bytes.
proof fn lemma_pixels_disjoint(v: FrameView, x1: int, y1: int, x2: int, y2: int, j: int)
    requires
        frame_wf(v),
        in_bounds(v, x1, y1),
        in_bounds(v, x2, y2),
        x1 != x2 || y1 != y2,
        pixel_offset(v, x1, y1) <= j < pixel_offset(v, x1, y1) + v.bytes_per_pixel,
    ensures
        !(pixel_offset(v, x2, y2) <= j < pixel_offset(v, x2, y2) + v.bytes_per_pixel),
{
    lemma_pixel_span(v, x1, y1);
    lemma_pixel_span(v, x2, y2);
    let p = v.pitch as int;
    let b = v.bytes_per_pixel as int;
    if y1 == y2 {
        assert(x1 * b + b <= x2 * b || x2 * b + b <= x1 * b) by (nonlinear_arith)
            requires
                x1 != x2,
                1 <= b,
        ;
    } else if y1 < y2 {
        assert((y1 + 1) * p <= y2 * p) by (nonlinear_arith)
            requires
                y1 < y2,
                0 <= p,
        ;
        assert(0 <= x2 * b) by (nonlinear_arith)
            requires
                0 <= x2,
                0 <= b,
        ;
    } else {
        assert((y2 + 1) * p <= y1 * p) by (nonlinear_arith)
            requires
                y2 < y1,
                0 <= p,
        ;
        assert(0 <= x1 * b) by (nonlinear_arith)
            requires
                0 <= x1,
                0 <= b,
        ;
    }
}

/// `n` bytes holding the little-endian digits of `w` read back as `w`
/// modulo `2^(8n)`.
proof fn lemma_le_value_digits(bytes: Seq<u8>, start: int, n: nat, w: nat)
    requires
        0 <= start,
        start + n <= bytes.len(),
        forall|i: int|
            0 <= i < n ==> (#[trigger] bytes[start + i] as int) == (w / pow2((8 * i) as nat))
                % 256,
    ensures
        le_value(bytes, start, n) == w % pow2((8 * n) as nat),
    decreases n,
{
    vstd::arithmetic::power2::lemma2_to64();
    if n == 0 {
    } else {
        let w1 = w / 256;
        assert forall|i: int| 0 <= i < n - 1 implies (#[trigger] bytes[(start + 1) + i] as int) == (
        w1 / pow2((8 * i) as nat)) % 256 by {
            assert(bytes[start + (i + 1)] as int == (w / pow2((8 * (i + 1)) as nat)) % 256);
            vstd::arithmetic::power2::lemma_pow2_adds(8, (8 * i) as nat);
            vstd::arithmetic::power2::lemma_pow2_pos((8 * i) as nat);
            vstd::arithmetic::div_mod::lemma_div_denominator(w as int, 256, pow2((8 * i) as nat) as int);
            assert((8 + 8 * i) as nat == (8 * (i + 1)) as nat);
        }
        lemma_le_value_digits(bytes, start + 1, (n - 1) as nat, w1);
        assert(bytes[start + 0] as int == (w / pow2(0)) % 256);
        assert(start + 0 == start);
        vstd::arithmetic::power2::lemma_pow2_adds(8, (8 * (n - 1)) as nat);
        vstd::arithmetic::power2::lemma_pow2_pos((8 * (n - 1)) as nat);
        vstd::arithmetic::div_mod::lemma_mod_breakdown(w as int, 256, pow2((8 * (n - 1)) as nat) as int);
        assert((8 + 8 * (n - 1)) as nat == (8 * n) as nat);
    }
}

/// The little-endian value of a byte range depends on those bytes alone.
proof fn lemma_le_value_frame(a: Seq<u8>, b: Seq<u8>, start: int, n: nat)
    requires
        forall|i: int| 0 <= i < n ==> a[start + i] == #[trigger] b[start + i],
    ensures
        le_value(a, start, n) == le_value(b, start, n),
    decreases n,
{
    if n > 0 {
        assert(a[start + 0] == b[start + 0]);
        assert forall|i: int| 0 <= i < n - 1 implies a[(start + 1) + i] == #[trigger] b[(start + 1)
            + i] by {
            assert(a[start + (i + 1)] == b[start + (i + 1)]);
        }
        lemma_le_value_frame(a, b, start + 1, (n - 1) as nat);
    }
}

/// A word stored at a pixel reads back as that word, as far as the pixel's
/// bytes hold it.
proof fn lemma_store_read(v: FrameView, x: int, y: int, word: u64)
    requires
        frame_wf(v),
        in_bounds(v, x, y),
    ensures
        raw_pixel(with_pixel(v, x, y, word), x, y) == Some(
            (word as nat % pow2((8 * v.bytes_per_pixel) as nat)) as u64,
        ),
{
    lemma_pixel_span(v, x, y);
    let v2 = with_pixel(v, x, y, word);
    let off = pixel_offset(v, x, y);
    let n = v.bytes_per_pixel as nat;
    assert forall|i: int| 0 <= i < n implies (#[trigger] v2.bytes[off + i] as int) == (word as nat
        / pow2((8 * i) as nat)) % 256 by {
        assert(v2.bytes[off + i] == le_byte(word, i));
    }
    lemma_le_value_digits(v2.bytes, off, n, word as nat);
}

/// A color written at a pixel reads back as its pixel word.
pub proof fn lemma_write_then_read(v: FrameView, x: int, y: int, c: Rgb)
    requires
        frame_wf(v),
        in_bounds(v, x, y),
    ensures
        raw_pixel(with_pixel(v, x, y, encode_spec(v, c)), x, y) == Some(encode_spec(v, c)),
{
    lemma_store_read(v, x, y, encode_spec(v, c));
    lemma_encode_fits(v, c);
    vstd::arithmetic::div_mod::lemma_small_mod(
        encode_spec(v, c) as nat,
        pow2((8 * v.bytes_per_pixel) as nat),
    );
}

/// Writing one pixel leaves what every other pixel reads unchanged.
pub proof fn lemma_write_keeps_others(v: FrameView, x: int, y: int, word: u64, x2: int, y2: int)
    requires
        frame_wf(v),
        in_bounds(v, x, y),
        x2 != x || y2 != y,
    ensures
        raw_pixel(with_pixel(v, x, y, word), x2, y2) == raw_pixel(v, x2, y2),
{
    if in_bounds(v, x2, y2) {
        let v2 = with_pixel(v, x, y, word);
        let off2 = pixel_offset(v, x2, y2);
        lemma_pixel_span(v, x2, y2);
        assert forall|i: int| 0 <= i < v.bytes_per_pixel implies v2.bytes[off2 + i]
            == #[trigger] v.bytes[off2 + i] by {
            if pixel_offset(v, x, y) <= off2 + i < pixel_offset(v, x, y) + v.bytes_per_pixel {
                lemma_pixels_disjoint(v, x, y, x2, y2, off2 + i);
            }
        }
        lemma_le_value_frame(v2.bytes, v.bytes, off2, v.bytes_per_pixel as nat);
    }
}

/// The rectangle `w` by `h` at `(x, y)` is non-empty and inside the surface.
pub open spec fn rect_inside(v: FrameView, x: int, y: int, w: int, h: int) -> bool {
    w != 0 && h != 0 && 0 <= x && 0 <= y && x + w <= v.width && y + h <= v.height
}

/// Row of the pixel that byte `j` of the surface belongs to.
pub open spec fn byte_row(v: FrameView, j: int) -> int {
    j / (v.pitch as int)
}

/// Column of the pixel that byte `j` of the surface belongs to.
pub open spec fn byte_col(v: FrameView, j: int) -> int {
    (j % (v.pitch as int)) / (v.bytes_per_pixel as int)
}

/// Position of byte `j` inside its pixel word.
pub open spec fn byte_lane(v: FrameView, j: int) -> int {
    (j % (v.pitch as int)) % (v.bytes_per_pixel as int)
}

/// Byte `j` belongs to a pixel of the rectangle `w` by `h` at `(x, y)`.
pub open spec fn byte_in_rect(v: FrameView, j: int, x: int, y: int, w: int, h: int) -> bool {
    y <= byte_row(v, j) < y + h && x <= byte_col(v, j) < x + w
}

/// `v` with every pixel of the rectangle `w` by `h` at `(x, y)` set to
/// `word`, and every other byte as it was.
pub open spec fn filled(v: FrameView, x: int, y: int, w: int, h: int, word: u64) -> FrameView {
    FrameView {
        bytes: Seq::new(
            v.bytes.len(),
            |j: int|
                if byte_in_rect(v, j, x, y, w, h) {
                    le_byte(word, byte_lane(v, j))
                } else {
                    v.bytes[j]
                },
        ),
        ..v
    }
}

/// The bytes of pixel `(px, py)` are exactly those whose row is `py` and
/// whose column is `px`; each sits at its lane.
pub(crate) proof fn lemma_byte_owner(v: FrameView, px: int, py: int, j: int)
    requires
        frame_wf(v),
        in_bounds(v, px, py),
        0 <= j,
    ensures
        (pixel_offset(v, px, py) <= j < pixel_offset(v, px, py) + v.bytes_per_pixel) <==> (
        byte_row(v, j) == py && byte_col(v, j) == px),
        pixel_offset(v, px, py) <= j < pixel_offset(v, px, py) + v.bytes_per_pixel ==> byte_lane(
            v,
            j,
        ) == j - pixel_offset(v, px, py),
{
    let p = v.pitch as int;
    let b = v.bytes_per_pixel as int;
    let w = v.width as int;
    assert(1 <= b <= p && 0 <= px * b && px * b + b <= p) by (nonlinear_arith)
        requires
            0 <= px < w,
            w * b <= p,
            1 <= b,
    ;
    let off = pixel_offset(v, px, py);
    if off <= j < off + b {
        let k = j - off;
        vstd::arithmetic::div_mod::lemma_fundamental_div_mod_converse(j, p, py, px * b + k);
        vstd::arithmetic::div_mod::lemma_fundamental_div_mod_converse(px * b + k, b, px, k);
    }
    if byte_row(v, j) == py && byte_col(v, j) == px {
        vstd::arithmetic::div_mod::lemma_fundamental_div_mod(j, p);
        vstd::arithmetic::div_mod::lemma_mod_bound(j, p);
        vstd::arithmetic::div_mod::lemma_fundamental_div_mod(j % p, b);
        vstd::arithmetic::div_mod::lemma_mod_bound(j % p, b);
        assert(j == py * p + (px * b + (j % p) % b)) by (nonlinear_arith)
            requires
                j == p * (j / p) + j % p,
                j % p == b * ((j % p) / b) + (j % p) % b,
                j / p == py,
                (j % p) / b == px,
        ;
    }
}

/// What a pixel reads after a fill: the fill's word when the pixel lies in
/// the rectangle, its earlier value otherwise.
pub proof fn lemma_read_filled(
    v: FrameView,
    x: int,
    y: int,
    w: int,
    h: int,
    word: u64,
    px: int,
    py: int,
)
    requires
        frame_wf(v),
        in_bounds(v, px, py),
    ensures
        frame_wf(filled(v, x, y, w, h, word)),
        raw_pixel(filled(v, x, y, w, h, word), px, py) == if x <= px < x + w && y <= py < y + h {
            Some((word as nat % pow2((8 * v.bytes_per_pixel) as nat)) as u64)
        } else {
            raw_pixel(v, px, py)
        },
{
    let f = filled(v, x, y, w, h, word);
    let off = pixel_offset(v, px, py);
    let n = v.bytes_per_pixel as nat;
    lemma_pixel_span(v, px, py);
    if x <= px < x + w && y <= py < y + h {
        assert forall|i: int| 0 <= i < n implies (#[trigger] f.bytes[off + i] as int) == (word as nat
            / pow2((8 * i) as nat)) % 256 by {
            lemma_byte_owner(v, px, py, off + i);
        }
        lemma_le_value_digits(f.bytes, off, n, word as nat);
    } else {
        assert forall|i: int| 0 <= i < n implies f.bytes[off + i] == #[trigger] v.bytes[off + i] by {
            lemma_byte_owner(v, px, py, off + i);
        }
        lemma_le_value_frame(f.bytes, v.bytes, off, n);
    }
}

/// A fill with the pixel word of `c` reads back as that word inside the
/// rectangle and leaves every pixel outside it as it was.
pub proof fn lemma_fill_then_read(
    v: FrameView,
    x: int,
    y: int,
    w: int,
    h: int,
    c: Rgb,
    px: int,
    py: int,
)
    requires
        frame_wf(v),
        in_bounds(v, px, py),
    ensures
        raw_pixel(filled(v, x, y, w, h, encode_spec(v, c)), px, py) == if x <= px < x + w && y
            <= py < y + h {
            Some(encode_spec(v, c))
        } else {
            raw_pixel(v, px, py)
        },
{
    lemma_read_filled(v, x, y, w, h, encode_spec(v, c), px, py);
    lemma_encode_fits(v, c);
    vstd::arithmetic::div_mod::lemma_small_mod(
        encode_spec(v, c) as nat,
        pow2((8 * v.bytes_per_pixel) as nat),
    );
}

/// Progress of a fill of `w` columns from `(x, y)`: the first `rows` rows
/// are done, and the first `cols` pixels of the next one.
pub open spec fn fill_progress(
    v: FrameView,
    x: int,
    y: int,
    w: int,
    rows: int,
    cols: int,
    word: u64,
) -> FrameView {
    FrameView {
        bytes: Seq::new(
            v.bytes.len(),
            |j: int|
                if (y <= byte_row(v, j) < y + rows && x <= byte_col(v, j) < x + w) || (byte_row(v, j)
                    == y + rows && x <= byte_col(v, j) < x + cols) {
                    le_byte(word, byte_lane(v, j))
                } else {
                    v.bytes[j]
                },
        ),
        ..v
    }
}

/// Writing the next pixel of a fill advances its progress by one column.
proof fn lemma_fill_step(
    v: FrameView,
    x: int,
    y: int,
    w: int,
    rows: int,
    cols: int,
    word: u64,
)
    requires
        frame_wf(v),
        in_bounds(v, x + cols, y + rows),
        0 <= x,
        0 <= y,
        0 <= rows,
        0 <= cols < w,
    ensures
        with_pixel(fill_progress(v, x, y, w, rows, cols, word), x + cols, y + rows, word)
            == fill_progress(v, x, y, w, rows, cols + 1, word),
{
    let before = fill_progress(v, x, y, w, rows, cols, word);
    let after = with_pixel(before, x + cols, y + rows, word);
    let goal = fill_progress(v, x, y, w, rows, cols + 1, word);
    let off = pixel_offset(v, x + cols, y + rows);
    assert forall|j: int| 0 <= j < v.bytes.len() implies after.bytes[j] == #[trigger] goal.bytes[j] by {
        lemma_byte_owner(v, x + cols, y + rows, j);
    }
    assert(after.bytes =~= goal.bytes);
}

/// A captured linear framebuffer; every pixel access is bounds-checked.
///
/// Pixel words follow the Limine framebuffer convention: little-endian,
/// channel masks counted from bit 0 of the pixel word.
pub struct FrameBuffer {
    surface: Vec<u8>,
    width: u32,
    height: u32,
    pitch: usize,
    bytes_per_pixel: usize,
    red: ChannelMask,
    green: ChannelMask,
    blue: ChannelMask,
}

impl View for FrameBuffer {
    type V = FrameView;

    closed spec fn view(&self) -> FrameView {
        FrameView {
            bytes: self.surface@,
            width: self.width,
            height: self.height,
            pitch: self.pitch,
            bytes_per_pixel: self.bytes_per_pixel,
            red: self.red,
            green: self.green,
            blue: self.blue,
        }
    }
}

impl FrameBuffer {
    /// Validates the loader's description `source` of the surface `surface`
    /// and captures its geometry.
    pub fn capture(source: &LimineFramebuffer, surface: Vec<u8>) -> (r: Result<
        Self,
        FramebufferError,
    >)
        requires
            source.memory_model == MEMORY_MODEL_RGB && limine_geometry_ok(*source)
                ==> !layout_mask_overflows(limine_layout_view(*source, surface@.len())),
        ensures
            source.memory_model != MEMORY_MODEL_RGB ==> r matches Err(FramebufferError::NotRgb),
            source.memory_model == MEMORY_MODEL_RGB && !limine_geometry_ok(*source) ==> r matches Err(
                FramebufferError::UnsupportedLayout,
            ),
            source.memory_model == MEMORY_MODEL_RGB && limine_geometry_ok(*source) ==> ({
                let l = limine_layout_view(*source, surface@.len());
                &&& (r is Ok <==> layout_accepted(l))
                &&& r matches Ok(fb) ==> fb@ == captured_view(l, surface@) && frame_wf(fb@)
                &&& r matches Err(e) ==> e == FramebufferError::UnsupportedLayout
            }),
    {
        let layout = FrameLayout::from_limine(source, surface)?;
        Self::from_layout(layout)
    }

    /// Validates `layout` into a framebuffer over its surface;
    /// `UnsupportedLayout` unless [`layout_accepted`].
    pub fn from_layout(layout: FrameLayout) -> (r: Result<Self, FramebufferError>)
        requires
            !layout_mask_overflows(layout_view(&layout)),
        ensures
            r is Ok <==> layout_accepted(layout_view(&layout)),
            r matches Ok(fb) ==> fb@ == captured_view(layout_view(&layout), layout.surface@)
                && frame_wf(fb@),
            r matches Err(e) ==> e == FramebufferError::UnsupportedLayout,
    {
        let ghost lv = layout_view(&layout);
        let FrameLayout {
            surface,
            width,
            height,
            pitch,
            bpp,
            red_size,
            red_shift,
            green_size,
            green_shift,
            blue_size,
            blue_shift,
        } = layout;
        if bpp == 0 || bpp % 8 != 0 || bpp > 64 {
            return Err(FramebufferError::UnsupportedLayout);
        }
        let red = ChannelMask::new(red_size, red_shift, bpp)?;
        let green = ChannelMask::new(green_size, green_shift, bpp)?;
        let blue = ChannelMask::new(blue_size, blue_shift, bpp)?;
        let disjoint = (red.bit_mask() & green.bit_mask()) == 0 && (green.bit_mask()
            & blue.bit_mask()) == 0 && (blue.bit_mask() & red.bit_mask()) == 0;
        let bytes_per_pixel = (bpp / 8) as usize;
        assert((width as u64) * (bytes_per_pixel as u64) <= 8 * 0xffff_ffff) by (nonlinear_arith)
            requires
                width <= 0xffff_ffff,
                bytes_per_pixel <= 8,
        ;
        // Rows must not overlap (writes would spill into the next row), the
        // full-surface offset math must never wrap, and the surface must
        // hold every row.
        if !disjoint || (pitch as u64) < (width as u64) * (bytes_per_pixel as u64) {
            return Err(FramebufferError::UnsupportedLayout);
        }
        let total = match pitch.checked_mul(height as usize) {
            Some(t) => t,
            None => {
                return Err(FramebufferError::UnsupportedLayout);
            },
        };
        if surface.len() < total {
            return Err(FramebufferError::UnsupportedLayout);
        }
        Ok(FrameBuffer { surface, width, height, pitch, bytes_per_pixel, red, green, blue })
    }

    /// `value` scaled into `mask`'s field and placed at its shift.
    fn encode_channel(mask: ChannelMask, value: u8) -> (w: u64)
        requires
            1 <= mask.size < 64,
            mask.shift < 64,
            (value as int) * field_max(mask.size) <= u64::MAX,
        ensures
            w == channel_word(mask, value),
    {
        proof {
            lemma_one_shl(mask.size);
        }
        let max = (1u64 << (mask.size as u64)) - 1;
        ((value as u64) * max / 255) << (mask.shift as u64)
    }

    /// The pixel word for `color` in this framebuffer's layout.
    fn encode(&self, color: Rgb) -> (w: u64)
        requires
            frame_wf(self@),
            encodable(self@, color),
        ensures
            w == encode_spec(self@, color),
    {
        Self::encode_channel(self.red, color.r) | Self::encode_channel(self.green, color.g)
            | Self::encode_channel(self.blue, color.b)
    }

    /// Stores the low bytes of `pixel` little-endian at `(x, y)`.
    fn write_unchecked(&mut self, x: u32, y: u32, pixel: u64)
        requires
            frame_wf(old(self)@),
            in_bounds(old(self)@, x as int, y as int),
        ensures
            final(self)@ == with_pixel(old(self)@, x as int, y as int, pixel),
    {
        let ghost before = self@;
        proof {
            lemma_pixel_span(before, x as int, y as int);
            vstd::arithmetic::power2::lemma2_to64();
        }
        let offset = (y as usize) * self.pitch + (x as usize) * self.bytes_per_pixel;
        let ghost off = offset as int;
        let mut rest = pixel;
        let mut i: usize = 0;
        assert(before.bytes =~= Seq::new(
            before.bytes.len(),
            |j: int|
                if off <= j < off + 0 {
                    le_byte(pixel, j - off)
                } else {
                    before.bytes[j]
                },
        ));
        assert(pixel as nat / pow2(0) == pixel as nat);
        while i < self.bytes_per_pixel
            invariant
                frame_wf(before),
                off == pixel_offset(before, x as int, y as int),
                offset as int == off,
                off + before.bytes_per_pixel <= before.bytes.len(),
                off + before.bytes_per_pixel <= usize::MAX,
                pow2(8) == 256,
                0 <= i <= before.bytes_per_pixel,
                self@ == (FrameView {
                    bytes: Seq::new(
                        before.bytes.len(),
                        |j: int|
                            if off <= j < off + i {
                                le_byte(pixel, j - off)
                            } else {
                                before.bytes[j]
                            },
                    ),
                    ..before
                }),
                rest as nat == pixel as nat / pow2((8 * i) as nat),
            decreases before.bytes_per_pixel - i,
        {
            let byte = (rest % 256) as u8;
            self.surface.set(offset + i, byte);
            proof {
                vstd::arithmetic::power2::lemma_pow2_adds((8 * i) as nat, 8);
                vstd::arithmetic::power2::lemma_pow2_pos((8 * i) as nat);
                vstd::arithmetic::div_mod::lemma_div_denominator(
                    pixel as int,
                    pow2((8 * i) as nat) as int,
                    256,
                );
                assert((8 * i + 8) as nat == (8 * (i + 1)) as nat);
            }
            rest = rest / 256;
            i = i + 1;
            assert(self@.bytes =~= Seq::new(
                before.bytes.len(),
                |j: int|
                    if off <= j < off + i {
                        le_byte(pixel, j - off)
                    } else {
                        before.bytes[j]
                    },
            ));
        }
        assert(self@.bytes =~= with_pixel(before, x as int, y as int, pixel).bytes);
    }

    /// Writes one pixel; `OutOfBounds` when `(x, y)` lies outside the
    /// surface.
    pub fn write_pixel(&mut self, x: u32, y: u32, color: Rgb) -> (r: Result<(), FramebufferError>)
        requires
            frame_wf(old(self)@),
            in_bounds(old(self)@, x as int, y as int) ==> encodable(old(self)@, color),
        ensures
            frame_wf(final(self)@),
            in_bounds(old(self)@, x as int, y as int) ==> r == Ok::<(), FramebufferError>(())
                && final(self)@ == with_pixel(
                old(self)@,
                x as int,
                y as int,
                encode_spec(old(self)@, color),
            ),
            !in_bounds(old(self)@, x as int, y as int) ==> r == Err::<(), FramebufferError>(
                FramebufferError::OutOfBounds,
            ) && final(self)@ == old(self)@,
    {
        if x >= self.width || y >= self.height {
            return Err(FramebufferError::OutOfBounds);
        }
        let pixel = self.encode(color);
        self.write_unchecked(x, y, pixel);
        Ok(())
    }

    /// Fills the rectangle `w` by `h` at `(x, y)` with `color`;
    /// `OutOfBounds` unless it is non-empty and fully inside the surface.
    pub fn fill_rect(&mut self, x: u32, y: u32, w: u32, h: u32, color: Rgb) -> (r: Result<
        (),
        FramebufferError,
    >)
        requires
            frame_wf(old(self)@),
            rect_inside(old(self)@, x as int, y as int, w as int, h as int) ==> encodable(
                old(self)@,
                color,
            ),
        ensures
            frame_wf(final(self)@),
            rect_inside(old(self)@, x as int, y as int, w as int, h as int) ==> r == Ok::<
                (),
                FramebufferError,
            >(()) && final(self)@ == filled(
                old(self)@,
                x as int,
                y as int,
                w as int,
                h as int,
                encode_spec(old(self)@, color),
            ),
            !rect_inside(old(self)@, x as int, y as int, w as int, h as int) ==> r == Err::<
                (),
                FramebufferError,
            >(FramebufferError::OutOfBounds) && final(self)@ == old(self)@,
    {
        if w == 0 || h == 0 || (x as u64) + (w as u64) > (self.width as u64) || (y as u64) + (
        h as u64) > (self.height as u64) {
            return Err(FramebufferError::OutOfBounds);
        }
        let ghost before = self@;
        let pixel = self.encode(color);
        assert(before.bytes =~= fill_progress(before, x as int, y as int, w as int, 0, 0, pixel).bytes);
        let mut dy: u32 = 0;
        while dy < h
            invariant
                frame_wf(before),
                rect_inside(before, x as int, y as int, w as int, h as int),
                0 <= dy <= h,
                self@ == fill_progress(before, x as int, y as int, w as int, dy as int, 0, pixel),
            decreases h - dy,
        {
            let mut dx: u32 = 0;
            while dx < w
                invariant
                    frame_wf(before),
                    rect_inside(before, x as int, y as int, w as int, h as int),
                    0 <= dy < h,
                    0 <= dx <= w,
                    self@ == fill_progress(
                        before,
                        x as int,
                        y as int,
                        w as int,
                        dy as int,
                        dx as int,
                        pixel,
                    ),
                decreases w - dx,
            {
                proof {
                    lemma_fill_step(before, x as int, y as int, w as int, dy as int, dx as int, pixel);
                }
                self.write_unchecked(x + dx, y + dy, pixel);
                dx = dx + 1;
            }
            assert(fill_progress(before, x as int, y as int, w as int, dy as int, w as int, pixel).bytes
                =~= fill_progress(
                before,
                x as int,
                y as int,
                w as int,
                dy + 1,
                0,
                pixel,
            ).bytes);
            dy = dy + 1;
        }
        assert(self@.bytes =~= filled(
            before,
            x as int,
            y as int,
            w as int,
            h as int,
            pixel,
        ).bytes);
        Ok(())
    }

    /// Writes the raw pixel word `word` at `(x, y)`; `OutOfBounds` when it
    /// lies outside the surface.
    pub fn write_word(&mut self, x: u32, y: u32, word: u64) -> (r: Result<(), FramebufferError>)
        requires
            frame_wf(old(self)@),
        ensures
            frame_wf(final(self)@),
            in_bounds(old(self)@, x as int, y as int) ==> r == Ok::<(), FramebufferError>(())
                && final(self)@ == with_pixel(old(self)@, x as int, y as int, word),
            !in_bounds(old(self)@, x as int, y as int) ==> r == Err::<(), FramebufferError>(
                FramebufferError::OutOfBounds,
            ) && final(self)@ == old(self)@,
    {
        if x >= self.width || y >= self.height {
            return Err(FramebufferError::OutOfBounds);
        }
        self.write_unchecked(x, y, word);
        Ok(())
    }

    /// Draws one point of a signed drawing surface: points left of or above
    /// the surface are dropped, others written as [`Self::write_pixel`]
    /// does.
    pub fn draw_point(&mut self, x: i32, y: i32, color: Rgb) -> (r: Result<(), FramebufferError>)
        requires
            frame_wf(old(self)@),
            x >= 0 && y >= 0 && in_bounds(old(self)@, x as int, y as int) ==> encodable(
                old(self)@,
                color,
            ),
        ensures
            frame_wf(final(self)@),
            x < 0 || y < 0 ==> r == Ok::<(), FramebufferError>(()) && final(self)@ == old(self)@,
            x >= 0 && y >= 0 && in_bounds(old(self)@, x as int, y as int) ==> r == Ok::<
                (),
                FramebufferError,
            >(()) && final(self)@ == with_pixel(
                old(self)@,
                x as int,
                y as int,
                encode_spec(old(self)@, color),
            ),
            x >= 0 && y >= 0 && !in_bounds(old(self)@, x as int, y as int) ==> r == Err::<
                (),
                FramebufferError,
            >(FramebufferError::OutOfBounds) && final(self)@ == old(self)@,
    {
        if x < 0 || y < 0 {
            return Ok(());
        }
        self.write_pixel(x as u32, y as u32, color)
    }

    /// Bytes per pixel word.
    pub fn bytes_per_pixel(&self) -> (n: usize)
        ensures
            n == self@.bytes_per_pixel,
    {
        self.bytes_per_pixel
    }

    /// The field of channel `index` (0 red, 1 green, 2 blue, else blue).
    pub fn channel(&self, index: usize) -> (m: ChannelMask)
        ensures
            m == (if index == 0 {
                self@.red
            } else if index == 1 {
                self@.green
            } else {
                self@.blue
            }),
    {
        if index == 0 {
            self.red
        } else if index == 1 {
            self.green
        } else {
            self.blue
        }
    }

    /// Reads back the raw little-endian pixel word at `(x, y)`; `None`
    /// outside the surface.
    pub fn read_raw_pixel(&self, x: u32, y: u32) -> (r: Option<u64>)
        requires
            frame_wf(self@),
        ensures
            r == raw_pixel(self@, x as int, y as int),
    {
        if x >= self.width || y >= self.height {
            return None;
        }
        proof {
            lemma_pixel_span(self@, x as int, y as int);
            vstd::arithmetic::power2::lemma2_to64();
            vstd::arithmetic::power2::lemma2_to64_rest();
        }
        let offset = (y as usize) * self.pitch + (x as usize) * self.bytes_per_pixel;
        let n = self.bytes_per_pixel;
        let mut pixel: u64 = 0;
        let mut k: usize = n;
        while k > 0
            invariant
                frame_wf(self@),
                n == self@.bytes_per_pixel,
                offset == pixel_offset(self@, x as int, y as int),
                offset + n <= self@.bytes.len(),
                0 <= k <= n,
                pixel as int == le_value(self@.bytes, offset + k, (n - k) as nat),
                (pixel as int) < pow2((8 * (n - k)) as nat),
                pow2(64) == 0x10000000000000000,
                pow2(8) == 256,
                offset + n <= usize::MAX,
            decreases k,
        {
            k = k - 1;
            proof {
                vstd::arithmetic::power2::lemma_pow2_adds((8 * (n - k - 1)) as nat, 8);
                assert((8 * (n - k - 1) + 8) as nat == (8 * (n - k)) as nat);
                if n - k < 8 {
                    vstd::arithmetic::power2::lemma_pow2_strictly_increases(
                        (8 * (n - k)) as nat,
                        64,
                    );
                }
                assert((pixel as int) * 256 + 255 < pow2((8 * (n - k)) as nat)) by (
                nonlinear_arith)
                    requires
                        (pixel as int) < pow2((8 * (n - k - 1)) as nat),
                        pow2((8 * (n - k)) as nat) == pow2((8 * (n - k - 1)) as nat) * 256,
                ;
            }
            pixel = pixel * 256 + (self.surface[offset + k] as u64);
        }
        Some(pixel)
    }

    pub fn width(&self) -> (w: u32)
        ensures
            w == self@.width,
    {
        self.width
    }

    pub fn height(&self) -> (h: u32)
        ensures
            h == self@.height,
    {
        self.height
    }

    /// The surface bytes, row after row of `pitch` bytes.
    pub fn bytes(&self) -> (b: &[u8])
        ensures
            b@ == self@.bytes,
    {
        self.surface.as_slice()
    }
}

/// First column of self-test bar `i` on a surface `width` columns wide.
pub open spec fn bar_start(width: u32, i: int) -> int {
    (width as int) * i / 7
}

/// One past the last column of self-test bar `i`.
pub open spec fn bar_end(width: u32, i: int) -> int {
    (width as int) * (i + 1) / 7
}

/// `v` after full-height bars `0..n` were filled with their colors.
pub open spec fn bars_drawn(v: FrameView, n: nat) -> FrameView
    decreases n,
{
    if n == 0 {
        v
    } else {
        filled(
            bars_drawn(v, (n - 1) as nat),
            bar_start(v.width, n - 1),
            0,
            bar_end(v.width, n - 1) - bar_start(v.width, n - 1),
            v.height as int,
            encode_spec(v, bar_color_spec(n - 1)),
        )
    }
}

/// Column sampled in the middle of bar `i`.
pub open spec fn bar_center(width: u32, i: int) -> int {
    bar_start(width, i) + (bar_end(width, i) - bar_start(width, i)) / 2
}

/// Row of sample `s`: a quarter, half and three quarters down, kept on the
/// surface.
pub open spec fn sample_y(height: u32, s: int) -> int {
    let y = if s == 0 {
        (height as int) / 4
    } else if s == 1 {
        (height as int) / 2
    } else {
        (height as int) * 3 / 4
    };
    if y < height - 1 {
        y
    } else {
        height - 1
    }
}

/// Every sampled point of every bar reads back its bar's color.
pub open spec fn bars_verified(v: FrameView) -> bool {
    forall|i: int, s: int|
        0 <= i < BAR_COUNT && 0 <= s < 3 ==> #[trigger] raw_pixel(
            v,
            bar_center(v.width, i),
            sample_y(v.height, s),
        ) == Some(encode_spec(v, bar_color_spec(i)))
}

/// Bars are ordered left to right, cover the surface, and are at least one
/// column wide once the surface has a column per bar.
proof fn lemma_bar_bounds(width: u32, i: int, j: int)
    requires
        0 <= i <= j <= BAR_COUNT,
    ensures
        0 <= bar_start(width, i) <= bar_start(width, j) <= width,
        bar_start(width, 0) == 0,
        bar_start(width, BAR_COUNT as int) == width,
        i < BAR_COUNT ==> bar_end(width, i) == bar_start(width, i + 1),
        i < BAR_COUNT && width >= 7 ==> bar_end(width, i) >= bar_start(width, i) + 1,
{
    let w = width as int;
    assert(0 <= w * i <= w * j <= w * 7) by (nonlinear_arith)
        requires
            0 <= i <= j <= 7,
            0 <= w,
    ;
    vstd::arithmetic::div_mod::lemma_div_is_ordered(w * i, w * j, 7);
    vstd::arithmetic::div_mod::lemma_div_is_ordered(w * j, w * 7, 7);
    vstd::arithmetic::div_mod::lemma_div_is_ordered(0, w * i, 7);
    assert(w * 7 / 7 == w);
    if i < 7 && w >= 7 {
        let a = w * i;
        assert(w * (i + 1) == w * i + w) by (nonlinear_arith);
        vstd::arithmetic::div_mod::lemma_fundamental_div_mod(a, 7);
        vstd::arithmetic::div_mod::lemma_mod_bound(a, 7);
        vstd::arithmetic::div_mod::lemma_fundamental_div_mod_converse(a + 7, 7, a / 7 + 1, a % 7);
        vstd::arithmetic::div_mod::lemma_div_is_ordered(a + 7, a + w, 7);
    }
}

/// Each bar color scales without overflow wherever white does.
proof fn lemma_bar_color_encodable(v: FrameView, i: int)
    requires
        encodable(v, bar_color_spec(0)),
        0 <= i < BAR_COUNT,
    ensures
        encodable(v, bar_color_spec(i)),
{
}

/// Bars drawn so far change the bytes only, and keep the invariant.
proof fn lemma_bars_drawn_shape(v: FrameView, n: nat)
    requires
        frame_wf(v),
    ensures
        bars_drawn(v, n) == (FrameView { bytes: bars_drawn(v, n).bytes, ..v }),
        bars_drawn(v, n).bytes.len() == v.bytes.len(),
        frame_wf(bars_drawn(v, n)),
    decreases n,
{
    if n > 0 {
        lemma_bars_drawn_shape(v, (n - 1) as nat);
    }
}

/// A pixel of bar `i` reads its bar's color once bar `i` is drawn, and its
/// earlier value before.
proof fn lemma_bars_read(v: FrameView, n: nat, i: int, px: int, py: int)
    requires
        frame_wf(v),
        n <= BAR_COUNT,
        0 <= i < BAR_COUNT,
        bar_start(v.width, i) <= px < bar_end(v.width, i),
        0 <= py < v.height,
    ensures
        raw_pixel(bars_drawn(v, n), px, py) == if i < n {
            Some(encode_spec(v, bar_color_spec(i)))
        } else {
            raw_pixel(v, px, py)
        },
    decreases n,
{
    lemma_bar_bounds(v.width, i, i + 1);
    lemma_bar_bounds(v.width, i + 1, BAR_COUNT as int);
    if n > 0 {
        let k = n - 1;
        let prev = bars_drawn(v, k as nat);
        lemma_bars_drawn_shape(v, k as nat);
        lemma_bars_read(v, k as nat, i, px, py);
        lemma_fill_then_read(
            prev,
            bar_start(v.width, k),
            0,
            bar_end(v.width, k) - bar_start(v.width, k),
            v.height as int,
            bar_color_spec(k),
            px,
            py,
        );
        assert(encode_spec(prev, bar_color_spec(k)) == encode_spec(v, bar_color_spec(k)));
        if k < i {
            lemma_bar_bounds(v.width, k + 1, i);
        } else if k > i {
            lemma_bar_bounds(v.width, i + 1, k);
        }
    }
}

/// Bars that were drawn verify: on a surface with a column per bar and at
/// least one row, every sampled point of the drawn bars reads back its
/// bar's color.
pub proof fn lemma_drawn_bars_verify(v: FrameView)
    requires
        frame_wf(v),
        v.width >= 7,
        v.height >= 1,
    ensures
        bars_verified(bars_drawn(v, BAR_COUNT as nat)),
{
    let d = bars_drawn(v, BAR_COUNT as nat);
    lemma_bars_drawn_shape(v, BAR_COUNT as nat);
    assert forall|i: int, s: int| 0 <= i < BAR_COUNT && 0 <= s < 3 implies #[trigger] raw_pixel(
        d,
        bar_center(d.width, i),
        sample_y(d.height, s),
    ) == Some(encode_spec(d, bar_color_spec(i))) by {
        lemma_bar_bounds(v.width, i, i + 1);
        lemma_bars_read(v, BAR_COUNT as nat, i, bar_center(v.width, i), sample_y(v.height, s));
    }
}

/// Column bounds `[start, end)` of self-test bar `index`.
fn bar_bounds(index: usize, width: u32) -> (r: (u32, u32))
    requires
        index < BAR_COUNT,
    ensures
        r.0 == bar_start(width, index as int),
        r.1 == bar_end(width, index as int),
{
    proof {
        lemma_bar_bounds(width, index as int, index as int + 1);
        lemma_bar_bounds(width, index as int + 1, BAR_COUNT as int);
    }
    let bars = BAR_COUNT as u64;
    let start = ((width as u64) * (index as u64) / bars) as u32;
    let end = ((width as u64) * (index as u64 + 1) / bars) as u32;
    (start, end)
}

/// Paints full-height vertical bars across the surface; false, with nothing
/// painted, when a bar would be empty (fewer than seven columns, or no row).
pub fn draw_color_bars(fb: &mut FrameBuffer) -> (ok: bool)
    requires
        frame_wf(old(fb)@),
        old(fb)@.width >= 7 && old(fb)@.height >= 1 ==> encodable(old(fb)@, bar_color_spec(0)),
    ensures
        frame_wf(final(fb)@),
        ok == (old(fb)@.width >= 7 && old(fb)@.height >= 1),
        ok ==> final(fb)@ == bars_drawn(old(fb)@, BAR_COUNT as nat),
        !ok ==> final(fb)@ == old(fb)@,
{
    let ghost before = fb@;
    let width = fb.width();
    let height = fb.height();
    let mut index: usize = 0;
    while index < BAR_COUNT
        invariant
            frame_wf(before),
            width == before.width,
            height == before.height,
            before.width >= 7 && before.height >= 1 ==> encodable(before, bar_color_spec(0)),
            0 <= index <= BAR_COUNT,
            index > 0 ==> before.width >= 7 && before.height >= 1,
            before == old(fb)@,
            fb@ == bars_drawn(before, index as nat),
        decreases BAR_COUNT - index,
    {
        proof {
            lemma_bars_drawn_shape(before, index as nat);
            lemma_bar_bounds(width, index as int, index as int + 1);
            lemma_bar_bounds(width, index as int + 1, BAR_COUNT as int);
            lemma_bar_bounds(width, 0, 1);
        }
        let (start, end) = bar_bounds(index, width);
        let color = bar_color(index);
        proof {
            if before.width >= 7 && before.height >= 1 {
                lemma_bar_color_encodable(before, index as int);
            }
        }
        assert(encode_spec(fb@, color) == encode_spec(before, color));
        assert(rect_inside(fb@, start as int, 0, (end - start) as int, height as int) <== (
        before.width >= 7 && before.height >= 1));
        if fb.fill_rect(start, 0, end - start, height, color).is_err() {
            assert(index == 0);
            return false;
        }
        index = index + 1;
    }
    proof {
        lemma_bars_drawn_shape(before, BAR_COUNT as nat);
    }
    true
}

/// Samples each bar at three heights and compares against its color.
pub fn verify_color_bars(fb: &FrameBuffer) -> (ok: bool)
    requires
        frame_wf(fb@),
        fb@.height >= 1,
        fb@.height * 3 <= u32::MAX,
        encodable(fb@, bar_color_spec(0)),
    ensures
        ok == bars_verified(fb@),
{
    let width = fb.width();
    let height = fb.height();
    let quarters = [height / 4, height / 2, height * 3 / 4];
    let mut index: usize = 0;
    while index < BAR_COUNT
        invariant
            frame_wf(fb@),
            width == fb@.width,
            height == fb@.height,
            height >= 1,
            height * 3 <= u32::MAX,
            encodable(fb@, bar_color_spec(0)),
            quarters@ == seq![height / 4, height / 2, (height * 3 / 4) as u32],
            0 <= index <= BAR_COUNT,
            forall|i: int, s: int|
                0 <= i < index && 0 <= s < 3 ==> #[trigger] raw_pixel(
                    fb@,
                    bar_center(width, i),
                    sample_y(height, s),
                ) == Some(encode_spec(fb@, bar_color_spec(i))),
        decreases BAR_COUNT - index,
    {
        proof {
            lemma_bar_bounds(width, index as int, index as int + 1);
            lemma_bar_bounds(width, index as int + 1, BAR_COUNT as int);
        }
        let (start, end) = bar_bounds(index, width);
        let center_x = start + (end - start) / 2;
        let color = bar_color(index);
        let mut k: usize = 0;
        while k < 3
            invariant
                frame_wf(fb@),
                width == fb@.width,
                height == fb@.height,
                height >= 1,
                encodable(fb@, bar_color_spec(0)),
                quarters@ == seq![height / 4, height / 2, (height * 3 / 4) as u32],
                0 <= index < BAR_COUNT,
                center_x == bar_center(width, index as int),
                color == bar_color_spec(index as int),
                0 <= k <= 3,
                forall|i: int, s: int|
                    0 <= i < index && 0 <= s < 3 ==> #[trigger] raw_pixel(
                        fb@,
                        bar_center(width, i),
                        sample_y(height, s),
                    ) == Some(encode_spec(fb@, bar_color_spec(i))),
                forall|s: int|
                    0 <= s < k ==> #[trigger] raw_pixel(
                        fb@,
                        bar_center(width, index as int),
                        sample_y(height, s),
                    ) == Some(encode_spec(fb@, bar_color_spec(index as int))),
            decreases 3 - k,
        {
            let q = quarters[k];
            let y = if q < height - 1 {
                q
            } else {
                height - 1
            };
            assert(y == sample_y(height, k as int));
            proof {
                lemma_bar_color_encodable(fb@, index as int);
            }
            let expected = fb.encode(color);
            match fb.read_raw_pixel(center_x, y) {
                Some(p) => {
                    if p != expected {
                        return false;
                    }
                },
                None => {
                    return false;
                },
            }
            k = k + 1;
        }
        index = index + 1;
    }
    true
}

/// Draws the bars and checks them by reading pixels back: true exactly when
/// the surface has a column per bar and at least one row.
pub fn color_bar_self_test(fb: &mut FrameBuffer) -> (ok: bool)
    requires
        frame_wf(old(fb)@),
        old(fb)@.width >= 7 && old(fb)@.height >= 1 ==> encodable(old(fb)@, bar_color_spec(0))
            && old(fb)@.height * 3 <= u32::MAX,
    ensures
        frame_wf(final(fb)@),
        ok == (old(fb)@.width >= 7 && old(fb)@.height >= 1),
        ok ==> final(fb)@ == bars_drawn(old(fb)@, BAR_COUNT as nat),
        !ok ==> final(fb)@ == old(fb)@,
{
    let ghost before = fb@;
    if !draw_color_bars(fb) {
        return false;
    }
    proof {
        lemma_bars_drawn_shape(before, BAR_COUNT as nat);
        lemma_drawn_bars_verify(before);
    }
    verify_color_bars(fb)
}

/// Index of the first framebuffer with the linear RGB memory model among
/// those the loader reported.
pub fn first_rgb(framebuffers: &[LimineFramebuffer]) -> (r: Option<usize>)
    ensures
        match r {
            Some(i) => i < framebuffers@.len() && framebuffers@[i as int].memory_model
                == MEMORY_MODEL_RGB && forall|j: int|
                0 <= j < i ==> #[trigger] framebuffers@[j].memory_model != MEMORY_MODEL_RGB,
            None => forall|j: int|
                0 <= j < framebuffers@.len() ==> #[trigger] framebuffers@[j].memory_model
                    != MEMORY_MODEL_RGB,
        },
{
    let mut i: usize = 0;
    while i < framebuffers.len()
        invariant
            0 <= i <= framebuffers@.len(),
            forall|j: int| 0 <= j < i ==> #[trigger] framebuffers@[j].memory_model != MEMORY_MODEL_RGB,
        decreases framebuffers@.len() - i,
    {
        if framebuffers[i].is_rgb() {
            return Some(i);
        }
        i = i + 1;
    }
    None
}

} // verus!
