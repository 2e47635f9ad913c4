use ferric::font::{Font, FontError};

/// Builds a PSF1 byte buffer whose glyph `i` is filled with the byte `i`.
fn psf1_glyphs(glyph_bytes: usize, glyph_count: usize, unicode: bool) -> Vec<u8> {
    let mut data = Vec::new();
    let mode = u8::from(glyph_count > 256) | if unicode { 2 } else { 0 };
    data.extend_from_slice(&0x0436u16.to_le_bytes());
    data.push(mode);
    data.push(glyph_bytes as u8);
    for i in 0..glyph_count {
        data.extend(core::iter::repeat_n(i as u8, glyph_bytes));
    }
    if unicode {
        for g in 0..glyph_count as u16 {
            data.push(1);
            data.extend_from_slice(&g.to_le_bytes());
        }
        data.push(0xFF);
    }
    data
}

#[test]
fn psf1_geometry_is_derived_from_the_header() {
    let data = psf1_glyphs(16, 256, false);
    let font = Font::parse(&data).unwrap();
    assert_eq!(font.version(), 1);
    assert_eq!(font.width(), 8);
    assert_eq!(font.height(), 16);
    assert_eq!(font.glyph_count(), 256);
    assert!(!font.has_unicode());
}

#[test]
fn psf1_512_glyph_mode_is_honoured() {
    let data = psf1_glyphs(8, 512, false);
    let font = Font::parse(&data).unwrap();
    assert_eq!(font.glyph_count(), 512);
    assert_eq!(font.glyph(511).unwrap().len(), 8);
    assert_eq!(font.glyph(512), None);
}

#[test]
fn glyph_slices_are_presented_row_first() {
    let data = psf1_glyphs(4, 256, false);
    let font = Font::parse(&data).unwrap();
    let g = font.glyph(7).unwrap();
    assert_eq!(g, &[7, 7, 7, 7]);
}

#[test]
fn glyph_pixel_reads_msb_first_bits() {
    let data = psf1_glyphs(16, 256, false);
    let font = Font::parse(&data).unwrap();
    assert_eq!(font.glyph_pixel(0, 0, 0), Some(false));
    assert_eq!(font.glyph_pixel(0, 7, 15), Some(false));
    assert_eq!(font.glyph_pixel(0xFF, 0, 0), Some(true));
    assert_eq!(font.glyph_pixel(0xFF, 7, 15), Some(true));
    assert_eq!(font.glyph_pixel(0, 8, 0), None);
    assert_eq!(font.glyph_pixel(0, 0, 16), None);
    assert_eq!(font.glyph_pixel(256, 0, 0), None);
}

#[test]
fn unicode_table_resolves_codepoints_to_glyphs() {
    let data = psf1_glyphs(16, 256, true);
    let font = Font::parse(&data).unwrap();
    assert!(font.has_unicode());
    assert_eq!(font.glyph_index_for('A'), Some(65));
    let plain_data = psf1_glyphs(16, 256, false);
    let plain = Font::parse(&plain_data).unwrap();
    assert_eq!(plain.glyph_index_for('A'), Some(65));
    assert_eq!(font.glyph_index_for('\u{4FFF}'), None);
}

#[test]
fn a_synthetic_psf2_font_parses() {
    let bytes_per_glyph = (16 / 8) * 32;
    let mut data = Vec::new();
    data.extend_from_slice(&0x864a_b572u32.to_le_bytes());
    data.extend_from_slice(&0u32.to_le_bytes());
    data.extend_from_slice(&32u32.to_le_bytes());
    data.extend_from_slice(&0u32.to_le_bytes());
    data.extend_from_slice(&256u32.to_le_bytes());
    data.extend_from_slice(&(bytes_per_glyph as u32).to_le_bytes());
    data.extend_from_slice(&32u32.to_le_bytes());
    data.extend_from_slice(&16u32.to_le_bytes());
    data.resize(32 + 256 * bytes_per_glyph, 0);
    data[32] = 0x80;
    let font = Font::parse(&data).unwrap();
    assert_eq!(font.version(), 2);
    assert_eq!(font.width(), 16);
    assert_eq!(font.height(), 32);
    assert_eq!(font.bytes_per_row(), 2);
    assert_eq!(font.glyph_pixel(0, 0, 0), Some(true));
    assert_eq!(font.glyph_pixel(0, 1, 0), Some(false));
    assert_eq!(font.glyph_pixel(0, 8, 0), Some(false));
}

#[test]
fn malformed_and_non_psf_input_is_rejected() {
    assert_eq!(Font::parse(&[]), Err(FontError::TooShort));
    assert_eq!(Font::parse(&[0xFF]), Err(FontError::TooShort));
    assert_eq!(Font::parse(&[0xAA, 0xBB]), Err(FontError::Corrupt));
    let mut data = psf1_glyphs(16, 256, false);
    data.truncate(100);
    assert_eq!(Font::parse(&data), Err(FontError::Corrupt));
}

#[test]
fn psf2_unicode_table_maps_a_multibyte_codepoint() {
    // 8x8, 2 glyphs, unicode table: glyph 0 <- 'a', glyph 1 <- 'é' (UTF-8 C3 A9).
    let mut data = Vec::new();
    data.extend_from_slice(&0x864a_b572u32.to_le_bytes());
    data.extend_from_slice(&0u32.to_le_bytes());
    data.extend_from_slice(&32u32.to_le_bytes());
    data.extend_from_slice(&1u32.to_le_bytes());
    data.extend_from_slice(&2u32.to_le_bytes());
    data.extend_from_slice(&8u32.to_le_bytes());
    data.extend_from_slice(&8u32.to_le_bytes());
    data.extend_from_slice(&8u32.to_le_bytes());
    data.resize(32 + 2 * 8, 0);
    data.extend_from_slice(&[b'a', 0xFF, 0xC3, 0xA9, 0xFF]);
    let font = Font::parse(&data).unwrap();
    assert!(font.has_unicode());
    assert_eq!(font.glyph_index_for('a'), Some(0));
    assert_eq!(font.glyph_index_for('é'), Some(1));
    assert_eq!(font.glyph_index_for('z'), None);
}

/// A PSF2 header for `count` glyphs of `bpg` bytes, `height` rows and
/// `width` pixels, followed by zeroed glyph bitmaps.
fn psf2_zeroed(count: u32, bpg: u32, height: u32, width: u32) -> Vec<u8> {
    let mut data = Vec::new();
    for word in [0x864a_b572u32, 0, 32, 0, count, bpg, height, width] {
        data.extend_from_slice(&word.to_le_bytes());
    }
    data.resize(32 + (count * bpg) as usize, 0);
    data
}

#[test]
fn pixel_addressability_follows_row_width() {
    let psf1 = psf1_glyphs(16, 256, false);
    assert!(Font::parse(&psf1).unwrap().all_pixels_addressable());
    let covering = psf2_zeroed(4, 64, 32, 16);
    assert!(Font::parse(&covering).unwrap().all_pixels_addressable());
    // One byte per row cannot hold a 16-pixel-wide row.
    let narrow = psf2_zeroed(4, 32, 32, 16);
    let font = Font::parse(&narrow).unwrap();
    assert_eq!(font.bytes_per_row(), 1);
    assert!(!font.all_pixels_addressable());
}
