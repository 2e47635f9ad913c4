use ferric::api::Rgb;
use ferric::font::Font;
use ferric::grid::{Cell, GlyphStyle, Surface, TextGrid};

const BLACK: Rgb = Rgb { r: 0, g: 0, b: 0 };
const WHITE: Rgb = Rgb { r: 255, g: 255, b: 255 };

#[test]
fn buffer_too_small_is_rejected() {
    let cells = vec![Cell::blank(BLACK, BLACK); 8];
    assert!(TextGrid::new(cells.clone(), 3, 3).is_none());
    assert!(TextGrid::new(cells.clone(), 2, 4).is_some());
    assert!(TextGrid::new(cells, 0, 4).is_none());
}

#[test]
fn put_advances_and_wraps_at_the_last_column() {
    let cells = vec![Cell::blank(BLACK, BLACK); 3 * 2];
    let mut g = TextGrid::new(cells, 3, 2).unwrap();
    for c in ['a', 'b'] {
        g.put(c, WHITE, BLACK);
    }
    assert_eq!(g.cursor_col(), 2);
    assert_eq!(g.cell(0, 0).unwrap().glyph, 'a');
    g.put('c', WHITE, BLACK);
    assert_eq!(g.cell(0, 2).unwrap().glyph, 'c');
    assert_eq!(g.cursor_row(), 1);
    assert_eq!(g.cursor_col(), 0);
    g.put('d', WHITE, BLACK);
    assert_eq!(g.cell(1, 0).unwrap().glyph, 'd');
    assert_eq!(g.cursor_col(), 1);
}

#[test]
fn newline_starts_the_next_row() {
    let cells = vec![Cell::blank(BLACK, BLACK); 4 * 3];
    let mut g = TextGrid::new(cells, 4, 3).unwrap();
    g.put('x', WHITE, BLACK);
    g.put('\n', WHITE, BLACK);
    assert_eq!(g.cursor_row(), 1);
    assert_eq!(g.cursor_col(), 0);
    g.put('y', WHITE, BLACK);
    assert_eq!(g.cell(1, 0).unwrap().glyph, 'y');
    assert_eq!(g.cell(0, 0).unwrap().glyph, 'x');
}

#[test]
fn carriage_return_returns_to_column_zero() {
    let cells = vec![Cell::blank(BLACK, BLACK); 4];
    let mut g = TextGrid::new(cells, 4, 1).unwrap();
    g.put('a', WHITE, BLACK);
    g.put('b', WHITE, BLACK);
    g.put('\r', WHITE, BLACK);
    g.put('c', WHITE, BLACK);
    assert_eq!(g.cell(0, 0).unwrap().glyph, 'c');
    assert_eq!(g.cell(0, 1).unwrap().glyph, 'b');
}

#[test]
fn tab_advances_to_the_next_stop() {
    let cells = vec![Cell::blank(BLACK, BLACK); 16];
    let mut g = TextGrid::new(cells, 16, 1).unwrap();
    g.put('\t', WHITE, BLACK);
    assert_eq!(g.cursor_col(), 8);
    g.put('a', WHITE, BLACK);
    g.put('\t', WHITE, BLACK);
    assert_eq!(g.cursor_col(), 16);
}

#[test]
fn scrolling_drops_the_top_row_and_blanks_the_bottom() {
    let cells = vec![Cell::blank(BLACK, BLACK); 3 * 2];
    let mut g = TextGrid::new(cells, 3, 2).unwrap();
    for c in ['a', 'b', 'c'] {
        g.put(c, WHITE, BLACK);
    }
    assert_eq!(g.cursor_row(), 1);
    for c in ['d', 'e', 'f'] {
        g.put(c, WHITE, BLACK);
    }
    assert_eq!(g.cell(0, 0).unwrap().glyph, 'd');
    assert_eq!(g.cell(0, 1).unwrap().glyph, 'e');
    assert_eq!(g.cell(0, 2).unwrap().glyph, 'f');
    assert_eq!(g.cell(1, 0).unwrap().glyph, ' ');
    assert_eq!(g.cell(1, 1).unwrap().glyph, ' ');
    assert_eq!(g.cell(1, 2).unwrap().glyph, ' ');
    assert_eq!(g.cursor_row(), 1);
    assert_eq!(g.cursor_col(), 0);
}

#[test]
fn set_text_writes_a_row_and_leaves_the_cursor_after() {
    let cells = vec![Cell::blank(BLACK, BLACK); 8 * 3];
    let mut g = TextGrid::new(cells, 8, 3).unwrap();
    g.set_text(1, "hi", WHITE, BLACK);
    assert_eq!(g.cell(1, 0).unwrap().glyph, 'h');
    assert_eq!(g.cell(1, 1).unwrap().glyph, 'i');
    assert_eq!(g.cursor_row(), 1);
    assert_eq!(g.cursor_col(), 2);
}

#[test]
fn blit_glyph_paints_foreground_and_background() {
    let mut data = vec![0u8; 2];
    data[0] = 0b1000_0000;
    data[1] = 0b0000_0000;
    let mut font_data: Vec<u8> = Vec::new();
    font_data.extend_from_slice(&0x0436u16.to_le_bytes());
    font_data.push(0);
    font_data.push(2);
    font_data.extend(data);
    font_data.resize(4 + 256 * 2, 0);
    let font = Font::parse(&font_data).unwrap();

    let mut surface = Surface::new(vec![0u32; 4 * 4], 4, 4).unwrap();
    surface.blit_glyph(&font, 0, 0, 0, GlyphStyle::new(WHITE, BLACK));
    let pixels = surface.into_pixels();
    assert_eq!(pixels[0], 0x00FF_FFFF);
    assert!(pixels[1..].iter().all(|&p| p == 0x0000_0000));

    let mut surface = Surface::new(vec![0u32; 6 * 6], 6, 6).unwrap();
    surface.blit_glyph(&font, 0, 0, 0, GlyphStyle { fg: WHITE, bg: BLACK, scale: 3 });
    let wide = surface.into_pixels();
    assert_eq!(wide[0], 0x00FF_FFFF);
    assert_eq!(wide[1], 0x00FF_FFFF);
    assert_eq!(wide[2], 0x00FF_FFFF);
}

#[test]
fn set_cell_and_cell_reject_out_of_range_positions() {
    let cells = vec![Cell::blank(BLACK, BLACK); 2 * 2];
    let mut g = TextGrid::new(cells, 2, 2).unwrap();
    g.set_cell(1, 1, Cell { glyph: 'z', fg: WHITE, bg: BLACK });
    assert_eq!(g.cell(1, 1).unwrap().glyph, 'z');
    g.set_cell(2, 0, Cell { glyph: 'q', fg: WHITE, bg: BLACK });
    assert!(g.cell(2, 0).is_none());
    assert!(g.cell(0, 2).is_none());
    assert_eq!(g.cells().iter().filter(|c| c.glyph == 'q').count(), 0);
}

#[test]
fn clear_blanks_every_cell_and_homes_the_cursor() {
    let cells = vec![Cell::blank(BLACK, BLACK); 3 * 2];
    let mut g = TextGrid::new(cells, 3, 2).unwrap();
    g.put('a', WHITE, BLACK);
    g.put('b', WHITE, BLACK);
    g.clear(WHITE, BLACK);
    assert!(g.cells().iter().all(|c| *c == Cell::blank(WHITE, BLACK)));
    assert_eq!((g.cursor_row(), g.cursor_col()), (0, 0));
}

#[test]
fn surface_put_clips_outside_the_rectangle() {
    let mut s = Surface::new(vec![0u32; 2 * 2], 2, 2).unwrap();
    s.put(1, 1, 7);
    s.put(2, 0, 9);
    s.put(0, 2, 9);
    assert_eq!(s.pixels(), &[0, 0, 0, 7]);
    assert!(Surface::new(vec![0u32; 3], 2, 2).is_none());
    assert!(Surface::new(vec![0u32; 4], 0, 2).is_none());
}
