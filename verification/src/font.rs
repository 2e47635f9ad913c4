//! PC Screen Font (PSF) parsing and glyph rasterization, allocation-free.
//!
//! A [`Font`] borrows the raw font bytes and computes layout without copying.
//! Both PSF v1 (8 px glyphs) and v2 (arbitrary width) are accepted.
use vstd::prelude::*;

verus! {

/// Why a byte slice was rejected as a font.
#[derive(Clone, Copy, Debug, PartialEq, Eq, Structural)]
pub enum FontError {
    /// The slice is too short to hold the version's header.
    TooShort,
    /// A supported magic was matched but the payload is malformed.
    Corrupt,
}

pub const PSF1_MAGIC: u16 = 0x0436;
pub const PSF1_HEADER: usize = 4;
pub const PSF2_MAGIC: u32 = 0x864a_b572;
pub const PSF2_HEADER: usize = 32;

/// Little-endian 16-bit value at `i`.
pub open spec fn le16(d: Seq<u8>, i: int) -> int {
    d[i] + 256 * d[i + 1]
}

/// Little-endian 32-bit value at `i`.
pub open spec fn le32(d: Seq<u8>, i: int) -> int {
    d[i] + 256 * d[i + 1] + 65536 * d[i + 2] + 16777216 * d[i + 3]
}

fn u16le(b: &[u8]) -> (v: u16)
    requires
        b@.len() >= 2,
    ensures
        v == le16(b@, 0),
{
    (b[0] as u16) + (b[1] as u16) * 256
}

fn u32le(b: &[u8], i: usize) -> (v: u32)
    requires
        i + 4 <= b@.len(),
    ensures
        v == le32(b@, i as int),
{
    (b[i] as u32) + (b[i + 1] as u32) * 256 + (b[i + 2] as u32) * 65536 + (b[i + 3] as u32)
        * 16777216
}

/// A parsed PSF font view over borrowed bytes.
#[derive(Clone, Copy, Debug, PartialEq, Eq)]
pub struct Font<'a> {
    data: &'a [u8],
    version: u8,
    width: u32,
    height: u32,
    bytes_per_row: u32,
    glyph_count: u32,
    glyph_bytes: usize,
    glyph_data_offset: usize,
    has_unicode: bool,
    unicode_offset: usize,
}

/// What a font is to its readers: the bytes it reads and the layout its
/// header gives them.
pub ghost struct FontView {
    pub data: Seq<u8>,
    pub version: u8,
    pub width: u32,
    pub height: u32,
    pub bytes_per_row: u32,
    pub glyph_count: u32,
    pub glyph_bytes: usize,
    pub glyph_data_offset: usize,
    pub has_unicode: bool,
    pub unicode_offset: usize,
}

impl<'a> View for Font<'a> {
    type V = FontView;

    closed spec fn view(&self) -> FontView {
        FontView {
            data: self.data@,
            version: self.version,
            width: self.width,
            height: self.height,
            bytes_per_row: self.bytes_per_row,
            glyph_count: self.glyph_count,
            glyph_bytes: self.glyph_bytes,
            glyph_data_offset: self.glyph_data_offset,
            has_unicode: self.has_unicode,
            unicode_offset: self.unicode_offset,
        }
    }
}

/// What `Font::parse` yields for the bytes `d`: the PSF1 layout when the
/// PSF1 magic leads, else the PSF2 layout when the PSF2 magic leads.
pub open spec fn parse_spec(d: Seq<u8>) -> Result<FontView, FontError> {
    if d.len() < 2 {
        Err(FontError::TooShort)
    } else if le16(d, 0) == PSF1_MAGIC {
        psf1_spec(d)
    } else if d.len() >= 4 && le32(d, 0) == PSF2_MAGIC {
        psf2_spec(d)
    } else {
        Err(FontError::Corrupt)
    }
}

/// PSF1: mode bit 0 selects 512 glyphs, bit 1 a unicode table; glyphs are
/// 8 px wide and `char_size` rows tall, one byte per row.
pub open spec fn psf1_spec(d: Seq<u8>) -> Result<FontView, FontError> {
    if d.len() < 4 {
        Err(FontError::TooShort)
    } else {
        let mode = d[2];
        let char_size = d[3];
        let glyph_count: u32 = if mode & 1 != 0 { 512 } else { 256 };
        let end = 4 + glyph_count * char_size;
        if end > d.len() {
            Err(FontError::Corrupt)
        } else {
            Ok(
                FontView {
                    data: d,
                    version: 1,
                    width: 8,
                    height: char_size as u32,
                    bytes_per_row: 1,
                    glyph_count,
                    glyph_bytes: char_size as usize,
                    glyph_data_offset: 4,
                    has_unicode: mode & 2 != 0,
                    unicode_offset: end as usize,
                },
            )
        }
    }
}

/// PSF2: a 32-byte little-endian header with header size, flags, glyph
/// count, bytes per glyph, height and width; all must be non-zero, the
/// header at least 32 bytes, and the glyph table must fit in the data.
pub open spec fn psf2_spec(d: Seq<u8>) -> Result<FontView, FontError> {
    if d.len() < 32 {
        Err(FontError::TooShort)
    } else {
        let headersize = le32(d, 8);
        let flags = le32(d, 12) as u32;
        let numglyph = le32(d, 16);
        let bpg = le32(d, 20);
        let height = le32(d, 24);
        let width = le32(d, 28);
        if headersize < 32 || numglyph == 0 || bpg == 0 || height == 0 || width == 0 {
            Err(FontError::Corrupt)
        } else if headersize + numglyph * bpg > d.len() {
            Err(FontError::Corrupt)
        } else {
            Ok(
                FontView {
                    data: d,
                    version: 2,
                    width: width as u32,
                    height: height as u32,
                    bytes_per_row: (bpg / height) as u32,
                    glyph_count: numglyph as u32,
                    glyph_bytes: bpg as usize,
                    glyph_data_offset: headersize as usize,
                    has_unicode: flags & 1 != 0,
                    unicode_offset: (headersize + numglyph * bpg) as usize,
                },
            )
        }
    }
}

impl FontView {
    /// The layout facts every parsed font satisfies.
    pub open spec fn wf(&self) -> bool {
        &&& self.glyph_data_offset + self.glyph_count * self.glyph_bytes == self.unicode_offset
        &&& self.unicode_offset <= self.data.len()
        &&& self.version == 1 || self.version == 2
        &&& self.height >= 1 || self.version == 1
        &&& self.version == 1 ==> self.width == 8 && self.bytes_per_row == 1 && self.height
            == self.glyph_bytes
        &&& self.version == 2 ==> self.bytes_per_row == (self.glyph_bytes as int) / (
        self.height as int)
    }

    /// First byte of glyph `index`'s bitmap.
    pub open spec fn glyph_start(&self, index: int) -> int {
        self.glyph_data_offset + index * self.glyph_bytes
    }

    /// The bitmap of glyph `index`, top row first.
    pub open spec fn glyph(&self, index: u32) -> Option<Seq<u8>> {
        if index >= self.glyph_count {
            None
        } else {
            Some(
                self.data.subrange(
                    self.glyph_start(index as int),
                    self.glyph_start(index as int) + self.glyph_bytes,
                ),
            )
        }
    }

    /// Byte within a glyph bitmap that holds pixel `(x, y)`.
    pub open spec fn pixel_row(&self, x: u32, y: u32) -> int {
        y * self.bytes_per_row + x / 8
    }

    /// Whether the row bytes cover the glyph width.
    pub open spec fn rows_cover_width(&self) -> bool {
        self.width <= 8 * self.bytes_per_row
    }

    /// Every pixel of the glyph box maps to a byte inside the glyph bitmap.
    pub open spec fn pixels_addressable(&self) -> bool {
        forall|x: u32, y: u32|
            x < self.width && y < self.height ==> #[trigger] self.pixel_row(x, y)
                < self.glyph_bytes
    }

    /// Glyph pixel `(x, y)`: the bit `7 - x % 8` (MSB first) of its row byte.
    pub open spec fn glyph_pixel(&self, index: u32, x: u32, y: u32) -> Option<bool> {
        if index >= self.glyph_count || x >= self.width || y >= self.height {
            None
        } else {
            let byte = self.data[self.glyph_start(index as int) + self.pixel_row(x, y)];
            Some(byte & (1u8 << ((7 - x % 8) as u8)) != 0)
        }
    }

    /// The unicode-table lookup of the font's version.
    pub open spec fn unicode_lookup(&self, c: char) -> Option<u32> {
        if self.version == 1 {
            v1_lookup(self.data, self.unicode_offset as int, 0, self.glyph_count as int, c as u32)
        } else {
            v2_lookup(
                self.data.subrange(self.unicode_offset as int, self.data.len() as int),
                0,
                0,
                c as u32,
            )
        }
    }

    /// Glyph for `c`: the unicode table first, then the code point itself
    /// when it is a valid glyph index.
    pub open spec fn glyph_index(&self, c: char) -> Option<u32> {
        if self.has_unicode && self.unicode_lookup(c) is Some {
            self.unicode_lookup(c)
        } else if (c as u32) < self.glyph_count {
            Some(c as u32)
        } else {
            None
        }
    }
}

// ---------------------------------------------------------------- UTF-8 --
/// Sequence length announced by a UTF-8 lead byte (1 for a stray
/// continuation byte).
pub open spec fn utf8_len(first: u8) -> int {
    if first < 0x80 {
        1
    } else if first & 0xE0 == 0xC0 {
        2
    } else if first & 0xF0 == 0xE0 {
        3
    } else if first & 0xF8 == 0xF0 {
        4
    } else {
        1
    }
}

/// Marker bits XOR-ed out of a lead byte.
pub open spec fn utf8_lead_bits(first: u8) -> u32 {
    if first < 0x80 {
        0
    } else if first & 0xE0 == 0xC0 {
        0xC0
    } else if first & 0xF0 == 0xE0 {
        0xE0
    } else if first & 0xF8 == 0xF0 {
        0xF0
    } else {
        0x80
    }
}

/// Code point accumulated from the first `k` bytes of `s` starting at
/// `start`: the unmarked lead, then six payload bits per continuation byte.
pub open spec fn utf8_acc(s: Seq<u8>, start: int, k: int) -> u32
    decreases k,
{
    if k <= 1 {
        (s[start] as u32) ^ utf8_lead_bits(s[start])
    } else {
        (utf8_acc(s, start, k - 1) << 6u32) | ((s[start + k - 1] & 0x3F) as u32)
    }
}

/// One decoded code point and its byte width, or `None` when truncated.
pub open spec fn decode_utf8_spec(s: Seq<u8>) -> Option<(u32, usize)> {
    if s.len() == 0 {
        None
    } else if s.len() < utf8_len(s[0]) {
        None
    } else {
        Some((utf8_acc(s, 0, utf8_len(s[0])), utf8_len(s[0]) as usize))
    }
}

proof fn lemma_lead(first: u8)
    ensures
        first < 0x80 ==> utf8_len(first) == 1,
        1 <= utf8_len(first) <= 4,
{
}

/// Decodes one UTF-8 code point from the front of `b`; `None` on truncation.
fn decode_utf8(b: &[u8]) -> (r: Option<(u32, usize)>)
    ensures
        r == decode_utf8_spec(b@),
{
    if b.len() == 0 {
        return None;
    }
    let first = b[0];
    let (len, bits) = if first < 0x80 {
        (1usize, 0u32)
    } else if first & 0xE0 == 0xC0 {
        (2usize, 0xC0u32)
    } else if first & 0xF0 == 0xE0 {
        (3usize, 0xE0u32)
    } else if first & 0xF8 == 0xF0 {
        (4usize, 0xF0u32)
    } else {
        (1usize, 0x80u32)
    };
    if b.len() < len {
        return None;
    }
    let mut cp = (first as u32) ^ bits;
    let mut i: usize = 1;
    while i < len
        invariant
            1 <= i <= len,
            len <= b@.len(),
            len == utf8_len(b@[0]),
            cp == utf8_acc(b@, 0, i as int),
        decreases len - i,
    {
        cp = (cp << 6u32) | ((b[i] & 0x3F) as u32);
        i = i + 1;
    }
    Some((cp, len))
}

// ---------------------------------------------------------- PSF1 table --
/// Scans the `count` little-endian code points starting at `seq` for
/// `target`, from entry `i` on: the first matching entry, `count` when none
/// matches, or -1 when the data ends before an entry could be read.
pub open spec fn v1_scan(d: Seq<u8>, seq: int, i: int, count: int, target: u32) -> int
    decreases count - i,
{
    if i >= count {
        count
    } else if seq + 2 * i + 2 > d.len() {
        -1
    } else if le16(d, seq + 2 * i) == target {
        i
    } else {
        v1_scan(d, seq, i + 1, count, target)
    }
}

/// PSF1 unicode table lookup from record `pos` for glyph `glyph` on: each
/// record is a count byte followed by that many code points; 0xFF ends the
/// table.
pub open spec fn v1_lookup(d: Seq<u8>, pos: int, glyph: int, gc: int, target: u32) -> Option<u32>
    decreases gc - glyph,
{
    if glyph >= gc || pos < 0 || pos >= d.len() || d[pos] == 0xFF {
        None
    } else {
        let count = d[pos] as int;
        let r = v1_scan(d, pos + 1, 0, count, target);
        if r == -1 {
            None
        } else if r < count {
            Some(glyph as u32)
        } else {
            v1_lookup(d, pos + 1 + 2 * count, glyph + 1, gc, target)
        }
    }
}

// ---------------------------------------------------------- PSF2 table --
/// PSF2 unicode table lookup from byte `pos` on: 0xFF closes the current
/// glyph's entry list, anything else is a UTF-8 code point.
pub open spec fn v2_lookup(b: Seq<u8>, pos: int, glyph: int, target: u32) -> Option<u32>
    decreases b.len() - pos,
{
    if pos < 0 || pos >= b.len() {
        None
    } else if b[pos] == 0xFF {
        v2_lookup(b, pos + 1, glyph + 1, target)
    } else if pos + utf8_len(b[pos]) > b.len() {
        None
    } else if utf8_acc(b, pos, utf8_len(b[pos])) == target {
        Some(glyph as u32)
    } else {
        v2_lookup(b, pos + utf8_len(b[pos]), glyph, target)
    }
}

proof fn lemma_utf8_acc_shift(s: Seq<u8>, pos: int, k: int)
    requires
        0 <= pos,
        1 <= k,
        pos + k <= s.len(),
    ensures
        utf8_acc(s.subrange(pos, s.len() as int), 0, k) == utf8_acc(s, pos, k),
    decreases k,
{
    let t = s.subrange(pos, s.len() as int);
    assert(t[0] == s[pos]);
    if k > 1 {
        lemma_utf8_acc_shift(s, pos, k - 1);
        assert(t[k - 1] == s[pos + k - 1]);
    }
}

impl<'a> Font<'a> {
    /// The layout facts every parsed font satisfies.
    pub open spec fn wf(&self) -> bool {
        self@.wf()
    }

    pub open spec fn spec_data(&self) -> Seq<u8> {
        self@.data
    }

    pub open spec fn spec_version(&self) -> u8 {
        self@.version
    }

    pub open spec fn spec_width(&self) -> u32 {
        self@.width
    }

    pub open spec fn spec_height(&self) -> u32 {
        self@.height
    }

    pub open spec fn spec_bytes_per_row(&self) -> u32 {
        self@.bytes_per_row
    }

    pub open spec fn spec_glyph_count(&self) -> u32 {
        self@.glyph_count
    }

    pub open spec fn spec_glyph_bytes(&self) -> usize {
        self@.glyph_bytes
    }

    pub open spec fn spec_has_unicode(&self) -> bool {
        self@.has_unicode
    }

    pub open spec fn glyph_spec(&self, index: u32) -> Option<Seq<u8>> {
        self@.glyph(index)
    }

    pub open spec fn pixel_row(&self, x: u32, y: u32) -> int {
        self@.pixel_row(x, y)
    }

    pub open spec fn rows_cover_width(&self) -> bool {
        self@.rows_cover_width()
    }

    pub open spec fn pixels_addressable(&self) -> bool {
        self@.pixels_addressable()
    }

    pub open spec fn glyph_pixel_spec(&self, index: u32, x: u32, y: u32) -> Option<bool> {
        self@.glyph_pixel(index, x, y)
    }

    pub open spec fn glyph_index_spec(&self, c: char) -> Option<u32> {
        self@.glyph_index(c)
    }
    /// A pixel of the glyph box of an addressable font lies in the bitmap.
    pub proof fn lemma_pixel_in_bitmap(&self, x: u32, y: u32)
        requires
            self.pixels_addressable(),
            x < self.spec_width(),
            y < self.spec_height(),
        ensures
            self.pixel_row(x, y) < self.spec_glyph_bytes(),
    {
        assert(self.pixel_row(x, y) < self.glyph_bytes);
    }

    /// PSF1 glyphs are one byte per row, so every pixel is addressable.
    pub proof fn lemma_psf1_pixels_addressable(&self)
        requires
            self.wf(),
            self.spec_version() == 1,
        ensures
            self.pixels_addressable(),
    {
        assert forall|x: u32, y: u32| x < self.width && y < self.height implies #[trigger] self@.pixel_row(x, y)
            < self.glyph_bytes by {
            assert(self.pixel_row(x, y) == y + x / 8);
        }
    }

    /// Rows of `bytes_per_row` bytes that cover the glyph width make every
    /// pixel addressable.
    pub proof fn lemma_covering_rows_pixels_addressable(&self)
        requires
            self.wf(),
            self.rows_cover_width(),
        ensures
            self.pixels_addressable(),
    {
        assert forall|x: u32, y: u32| x < self.width && y < self.height implies #[trigger] self@.pixel_row(x, y)
            < self.glyph_bytes by {
            let bpr = self.bytes_per_row as int;
            let h = self.height as int;
            assert(x / 8 < bpr);
            assert((y as int) * bpr + bpr <= h * bpr) by (nonlinear_arith)
                requires
                    y < h,
                    bpr >= 0,
            ;
            if self.version == 2 {
                let gb = self.glyph_bytes as int;
                vstd::arithmetic::div_mod::lemma_fundamental_div_mod(gb, h);
                vstd::arithmetic::div_mod::lemma_mod_bound(gb, h);
                assert(h * bpr == bpr * h) by (nonlinear_arith);
                assert(h * bpr <= gb);
            } else {
                assert(bpr == 1);
                assert(h * bpr == h) by (nonlinear_arith)
                    requires
                        bpr == 1,
                ;
            }
            assert((y as int) * bpr + x / 8 < h * bpr);
        }
    }

    /// Parses a PSF1 or PSF2 font from `data`.
    pub fn parse(data: &'a [u8]) -> (r: Result<Self, FontError>)
        ensures
            match r {
                Ok(f) => parse_spec(data@) == Ok::<FontView, FontError>(f@),
                Err(e) => parse_spec(data@) == Err::<FontView, FontError>(e),
            },
            r matches Ok(f) ==> f.wf(),
    {
        if data.len() < 2 {
            return Err(FontError::TooShort);
        }
        if u16le(data) == PSF1_MAGIC {
            return Self::parse_psf1(data);
        }
        if data.len() >= 4 && u32le(data, 0) == PSF2_MAGIC {
            return Self::parse_psf2(data);
        }
        Err(FontError::Corrupt)
    }

    fn parse_psf1(data: &'a [u8]) -> (r: Result<Self, FontError>)
        ensures
            match r {
                Ok(f) => psf1_spec(data@) == Ok::<FontView, FontError>(f@),
                Err(e) => psf1_spec(data@) == Err::<FontView, FontError>(e),
            },
            r matches Ok(f) ==> f.wf(),
    {
        if data.len() < PSF1_HEADER {
            return Err(FontError::TooShort);
        }
        let mode = data[2];
        let char_size = data[3];
        let glyph_count: u32 = if mode & 1 != 0 {
            512
        } else {
            256
        };
        let glyph_bytes = char_size as usize;
        assert((glyph_count as int) * (glyph_bytes as int) <= 512 * 255) by (nonlinear_arith)
            requires
                glyph_count <= 512,
                glyph_bytes <= 255,
        ;
        let glyphs_end = PSF1_HEADER + glyph_count as usize * glyph_bytes;
        if glyphs_end > data.len() {
            return Err(FontError::Corrupt);
        }
        Ok(
            Font {
                data,
                version: 1,
                width: 8,
                height: char_size as u32,
                bytes_per_row: 1,
                glyph_count,
                glyph_bytes,
                glyph_data_offset: PSF1_HEADER,
                has_unicode: mode & 2 != 0,
                unicode_offset: glyphs_end,
            },
        )
    }

    fn parse_psf2(data: &'a [u8]) -> (r: Result<Self, FontError>)
        ensures
            match r {
                Ok(f) => psf2_spec(data@) == Ok::<FontView, FontError>(f@),
                Err(e) => psf2_spec(data@) == Err::<FontView, FontError>(e),
            },
            r matches Ok(f) ==> f.wf(),
    {
        if data.len() < PSF2_HEADER {
            return Err(FontError::TooShort);
        }
        let headersize = u32le(data, 8);
        let flags = u32le(data, 12);
        let numglyph = u32le(data, 16);
        let bytesperglyph = u32le(data, 20);
        let height = u32le(data, 24);
        let width = u32le(data, 28);
        if headersize < 32 || numglyph == 0 || bytesperglyph == 0 || height == 0 || width == 0 {
            return Err(FontError::Corrupt);
        }
        assert((numglyph as int) * (bytesperglyph as int) <= 0xFFFF_FFFF * 0xFFFF_FFFF)
            by (nonlinear_arith)
            requires
                numglyph <= 0xFFFF_FFFF,
                bytesperglyph <= 0xFFFF_FFFF,
        ;
        let table = (numglyph as u64) * (bytesperglyph as u64);
        let glyphs_end = (headersize as u64) + table;
        if glyphs_end > data.len() as u64 {
            return Err(FontError::Corrupt);
        }
        let glyph_bytes = bytesperglyph as usize;
        Ok(
            Font {
                data,
                version: 2,
                width,
                height,
                bytes_per_row: bytesperglyph / height,
                glyph_count: numglyph,
                glyph_bytes,
                glyph_data_offset: headersize as usize,
                has_unicode: flags & 1 != 0,
                unicode_offset: glyphs_end as usize,
            },
        )
    }

    pub fn version(&self) -> (v: u8)
        ensures
            v == self.spec_version(),
    {
        self.version
    }

    pub fn bytes_per_row(&self) -> (v: u32)
        ensures
            v == self.spec_bytes_per_row(),
    {
        self.bytes_per_row
    }

    pub fn width(&self) -> (v: u32)
        ensures
            v == self.spec_width(),
    {
        self.width
    }

    pub fn height(&self) -> (v: u32)
        ensures
            v == self.spec_height(),
    {
        self.height
    }

    pub fn glyph_count(&self) -> (v: u32)
        ensures
            v == self.spec_glyph_count(),
    {
        self.glyph_count
    }

    /// Whether a unicode mapping table was present in the font.
    pub fn has_unicode(&self) -> (v: bool)
        ensures
            v == self.spec_has_unicode(),
    {
        self.has_unicode
    }

    /// Whether every pixel of the glyph box lies inside the glyph bitmap,
    /// so that `glyph_pixel` may be asked for any of them. PSF1 fonts and
    /// PSF2 fonts whose rows cover their width always pass.
    pub fn all_pixels_addressable(&self) -> (b: bool)
        requires
            self.wf(),
        ensures
            b == self.pixels_addressable(),
    {
        if self.width == 0 || self.height == 0 {
            return true;
        }
        let h1: u64 = (self.height - 1) as u64;
        let bpr: u64 = self.bytes_per_row as u64;
        assert(h1 * bpr <= 0xFFFF_FFFE * 0xFFFF_FFFF) by (nonlinear_arith)
            requires
                h1 <= 0xFFFF_FFFE,
                bpr <= 0xFFFF_FFFF,
        ;
        let last: u64 = h1 * bpr + ((self.width - 1) / 8) as u64;
        let b = last < self.glyph_bytes as u64;
        proof {
            let w1 = (self.width - 1) as u32;
            let hh = (self.height - 1) as u32;
            assert(self@.pixel_row(w1, hh) == last);
            if b {
                assert forall|x: u32, y: u32| x < self.width && y < self.height implies #[trigger] self@.pixel_row(x, y)
                    < self.glyph_bytes by {
                    let r = self.bytes_per_row as int;
                    assert((y as int) * r <= (hh as int) * r) by (nonlinear_arith)
                        requires
                            y <= hh,
                            r >= 0,
                    ;
                    vstd::arithmetic::div_mod::lemma_div_is_ordered(x as int, w1 as int, 8);
                }
            }
        }
        b
    }

    /// The raw bitmap of glyph `index` (top row first; pixels MSB-first
    /// within each row byte). `None` when `index` is out of range.
    pub fn glyph(&self, index: u32) -> (r: Option<&'a [u8]>)
        requires
            self.wf(),
        ensures
            r matches Some(g) ==> self.glyph_spec(index) == Some(g@),
            r is None <==> self.glyph_spec(index) is None,
    {
        if index >= self.glyph_count {
            return None;
        }
        proof {
            assert((index as int) * (self.glyph_bytes as int) + (self.glyph_bytes as int) <= (
            self.glyph_count as int) * (self.glyph_bytes as int)) by (nonlinear_arith)
                requires
                    index < self.glyph_count,
            ;
        }
        let start = self.glyph_data_offset + index as usize * self.glyph_bytes;
        Some(&self.data[start..start + self.glyph_bytes])
    }

    /// Whether `(x, y)` inside glyph `index` is part of the glyph. Pixel
    /// bits are laid out MSB-first, top row first. The queried pixel must
    /// lie inside the glyph's bitmap (true of every pixel of fonts whose
    /// rows cover their width).
    pub fn glyph_pixel(&self, index: u32, x: u32, y: u32) -> (r: Option<bool>)
        requires
            self.wf(),
            index >= self.spec_glyph_count() || x >= self.spec_width() || y >= self.spec_height()
                || self.pixel_row(x, y) < self.spec_glyph_bytes(),
        ensures
            r == self.glyph_pixel_spec(index, x, y),
            r is Some <==> (index < self.spec_glyph_count() && x < self.spec_width() && y
                < self.spec_height()),
    {
        if index >= self.glyph_count || x >= self.width || y >= self.height {
            return None;
        }
        proof {
            assert((y as int) * (self.bytes_per_row as int) + (x as int) / 8 < self.glyph_bytes);
            assert(0 <= (y as int) * (self.bytes_per_row as int)) by (nonlinear_arith);
        }
        let row = y as usize * self.bytes_per_row as usize + (x / 8) as usize;
        assert(row == self.pixel_row(x, y));
        proof {
            assert((index as int) * (self.glyph_bytes as int) + (self.glyph_bytes as int) <= (
            self.glyph_count as int) * (self.glyph_bytes as int)) by (nonlinear_arith)
                requires
                    index < self.glyph_count,
            ;
        }
        let g = self.glyph(index).unwrap();
        assert(g@.len() == self.glyph_bytes);
        let byte = g[row];
        assert(byte == self.data@[self@.glyph_start(index as int) + self.pixel_row(x, y)]);
        let sh: u8 = (7 - x % 8) as u8;
        Some(byte & (1u8 << sh) != 0)
    }

    /// Resolves `c` to a glyph index: the unicode table first, then its code
    /// point as a direct index when in range, else `None` for the caller to
    /// fall back to a replacement glyph.
    pub fn glyph_index_for(&self, c: char) -> (r: Option<u32>)
        requires
            self.wf(),
            self.spec_version() == 2 && self.spec_has_unicode() ==> self.spec_data().len()
                <= u32::MAX,
        ensures
            r == self.glyph_index_spec(c),
    {
        if self.has_unicode {
            if let Some(g) = self.unicode_lookup(c) {
                return Some(g);
            }
        }
        let u = c as u32;
        if u < self.glyph_count {
            Some(u)
        } else {
            None
        }
    }

    fn unicode_lookup(&self, c: char) -> (r: Option<u32>)
        requires
            self.wf(),
            self.version == 2 ==> self.data@.len() <= u32::MAX,
        ensures
            r == self@.unicode_lookup(c),
    {
        if self.version == 1 {
            self.unicode_lookup_v1(c)
        } else {
            self.unicode_lookup_v2(c)
        }
    }

    fn unicode_lookup_v1(&self, c: char) -> (r: Option<u32>)
        requires
            self.wf(),
        ensures
            r == v1_lookup(
                self.data@,
                self.unicode_offset as int,
                0,
                self.glyph_count as int,
                c as u32,
            ),
    {
        let ghost d = self.data@;
        let target = c as u32;
        let len = self.data.len();
        let mut pos = self.unicode_offset;
        let mut glyph: u32 = 0;
        while glyph < self.glyph_count
            invariant
                d == self.data@,
                len == d.len(),
                target == c as u32,
                pos <= len,
                glyph <= self.glyph_count,
                v1_lookup(d, self.unicode_offset as int, 0, self.glyph_count as int, target)
                    == v1_lookup(d, pos as int, glyph as int, self.glyph_count as int, target),
            decreases self.glyph_count - glyph,
        {
            if pos >= len {
                return None;
            }
            let count = self.data[pos];
            if count == 0xFF {
                return None;
            }
            let seq = pos + 1;
            let mut i: usize = 0;
            while i < count as usize
                invariant
                    d == self.data@,
                    len == d.len(),
                    pos < len,
                    seq == pos + 1,
                    count == d[pos as int],
                    count != 0xFF,
                    i <= count,
                    seq + 2 * i <= len,
                    glyph < self.glyph_count,
                    target == c as u32,
                    v1_lookup(d, self.unicode_offset as int, 0, self.glyph_count as int, target)
                        == v1_lookup(d, pos as int, glyph as int, self.glyph_count as int, target),
                    v1_scan(d, seq as int, 0, count as int, target) == v1_scan(
                        d,
                        seq as int,
                        i as int,
                        count as int,
                        target,
                    ),
                decreases count - i,
            {
                let off = seq + i * 2;
                if len - off < 2 {
                    return None;
                }
                let cp = u16le(&self.data[off..off + 2]) as u32;
                assert(cp == le16(d, seq + 2 * i));
                if cp == target {
                    return Some(glyph);
                }
                i = i + 1;
            }
            pos = pos + 1 + (count as usize) * 2;
            glyph = glyph + 1;
        }
        None
    }

    fn unicode_lookup_v2(&self, c: char) -> (r: Option<u32>)
        requires
            self.wf(),
            self.data@.len() <= u32::MAX,
        ensures
            r == v2_lookup(
                self.data@.subrange(self.unicode_offset as int, self.data@.len() as int),
                0,
                0,
                c as u32,
            ),
    {
        let bytes = &self.data[self.unicode_offset..self.data.len()];
        let ghost b = bytes@;
        let target = c as u32;
        let mut pos: usize = 0;
        let mut glyph: u32 = 0;
        while pos < bytes.len()
            invariant
                b == bytes@,
                b == self.data@.subrange(self.unicode_offset as int, self.data@.len() as int),
                b.len() <= u32::MAX,
                pos <= b.len(),
                glyph <= pos,
                target == c as u32,
                v2_lookup(b, 0, 0, target) == v2_lookup(b, pos as int, glyph as int, target),
            decreases b.len() - pos,
        {
            let byte = bytes[pos];
            if byte == 0xFF {
                glyph = glyph + 1;
                pos = pos + 1;
                continue;
            }
            let rest = &bytes[pos..bytes.len()];
            assert(rest@[0] == byte);
            proof {
                lemma_lead(byte);
                if pos + utf8_len(byte) <= b.len() {
                    lemma_utf8_acc_shift(b, pos as int, utf8_len(byte));
                }
            }
            let ghost p0 = pos as int;
            assert(byte == b[p0]);
            match decode_utf8(rest) {
                None => {
                    assert(p0 + utf8_len(b[p0]) > b.len());
                    return None;
                },
                Some((cp, width)) => {
                    assert(width == utf8_len(b[p0]));
                    assert(cp == utf8_acc(b, p0, utf8_len(b[p0])));
                    assert(v2_lookup(b, p0, glyph as int, target) == if cp == target {
                        Some(glyph)
                    } else {
                        v2_lookup(b, p0 + width, glyph as int, target)
                    });
                    pos = pos + width;
                    if cp == target {
                        return Some(glyph);
                    }
                },
            }
        }
        None
    }
}

} // verus!
