use ferric::framebuffer::{
    bar_color, draw_color_bars, verify_color_bars, FrameBuffer, FrameLayout, FramebufferError, Rgb, BAR_COUNT,
};

const BLACK: Rgb = Rgb { r: 0, g: 0, b: 0 };

fn try_fb_over(
    width: u32,
    height: u32,
    bpp: u16,
    (rs, rsh): (u8, u8),
    (gs, gsh): (u8, u8),
    (bs, bsh): (u8, u8),
    pitch_override: Option<usize>,
) -> Result<FrameBuffer, FramebufferError> {
    let bytes_per_pixel = usize::from(bpp / 8);
    let pitch = pitch_override.unwrap_or(width as usize * bytes_per_pixel);
    let surface = vec![0xEE; pitch * height as usize];
    FrameBuffer::from_layout(FrameLayout {
        surface,
        width,
        height,
        pitch,
        bpp,
        red_size: rs,
        red_shift: rsh,
        green_size: gs,
        green_shift: gsh,
        blue_size: bs,
        blue_shift: bsh,
    })
}

fn fb_over(width: u32, height: u32, bpp: u16, channels: ((u8, u8), (u8, u8), (u8, u8))) -> FrameBuffer {
    try_fb_over(width, height, bpp, channels.0, channels.1, channels.2, None).expect("test layout must validate")
}

fn surface_bgrx(width: u32, height: u32) -> FrameBuffer {
    fb_over(width, height, 32, ((8, 16), (8, 8), (8, 0)))
}

#[test]
fn layouts_outside_the_supported_shape_are_rejected() {
    let rejects = [
        (4, 2, (0u16, (8, 16), (8, 8), (8, 0)), None),
        (4, 2, (33, (8, 16), (8, 8), (8, 0)), None),
        (4, 2, (72, (8, 16), (8, 8), (8, 0)), None),
        (4, 2, (32, (8, 29), (8, 8), (8, 0)), None),
        (4, 2, (32, (0, 16), (8, 8), (8, 0)), None),
        (4, 2, (32, (8, 12), (8, 8), (8, 0)), None),
        (4, 2, (32, (8, 16), (8, 8), (8, 0)), Some(4)),
    ];
    for (width, height, spec, pitch) in rejects {
        let result = try_fb_over(width, height, spec.0, spec.1, spec.2, spec.3, pitch);
        assert_eq!(result.err(), Some(FramebufferError::UnsupportedLayout));
    }
}

#[test]
fn write_pixel_places_bytes_in_bgrx_order() {
    let mut fb = surface_bgrx(2, 2);

    fb.write_pixel(1, 0, Rgb::new(255, 255, 255)).unwrap();
    fb.write_pixel(0, 1, Rgb::new(0x12, 0x34, 0x56)).unwrap();

    let bytes = fb.bytes();
    assert_eq!(&bytes[4..8], &[0xFF, 0xFF, 0xFF, 0x00]);
    assert_eq!(&bytes[8..12], &[0x56, 0x34, 0x12, 0x00]);
    assert_eq!(&bytes[0..4], &[0xEE; 4]);
}

#[test]
fn narrow_channels_scale_instead_of_truncating() {
    let mut fb = fb_over(2, 2, 16, ((5, 11), (6, 5), (5, 0)));

    fb.write_pixel(0, 0, Rgb::new(255, 255, 255)).unwrap();
    assert_eq!(fb.read_raw_pixel(0, 0), Some(0xFFFF));

    fb.write_pixel(1, 1, Rgb::new(128, 128, 128)).unwrap();
    assert_eq!(fb.read_raw_pixel(1, 1), Some(0x7BEF));
}

#[test]
fn out_of_bounds_operations_are_refused() {
    let mut fb = surface_bgrx(4, 4);

    assert_eq!(fb.write_pixel(4, 0, BLACK), Err(FramebufferError::OutOfBounds));
    assert_eq!(fb.write_pixel(0, 4, BLACK), Err(FramebufferError::OutOfBounds));
    assert_eq!(fb.read_raw_pixel(4, 4), None);

    assert_eq!(fb.fill_rect(0, 0, 0, 4, BLACK), Err(FramebufferError::OutOfBounds));
    assert_eq!(fb.fill_rect(2, 2, 3, 1, BLACK), Err(FramebufferError::OutOfBounds));
    assert_eq!(fb.fill_rect(2, 2, 1, 3, BLACK), Err(FramebufferError::OutOfBounds));

    assert_eq!(fb.write_pixel(3, 3, BLACK), Ok(()));
    assert_eq!(fb.fill_rect(0, 0, 4, 4, BLACK), Ok(()));
}

#[test]
fn fill_rect_touches_only_its_own_region() {
    let mut fb = surface_bgrx(4, 4);
    let pitch = 16usize;

    fb.fill_rect(1, 1, 2, 2, Rgb::new(255, 0, 0)).unwrap();

    let bytes = fb.bytes();
    for y in 0..4u32 {
        for x in 0..4u32 {
            let inside = (1..3).contains(&x) && (1..3).contains(&y);
            let expected_word = if inside { 0x00FF0000 } else { 0xEEEEEEEE };
            let base = y as usize * pitch + x as usize * 4;
            let word = u32::from_le_bytes(bytes[base..base + 4].try_into().unwrap()) as u64;
            assert_eq!(word, expected_word, "pixel ({x},{y})");
        }
    }
}

#[test]
fn drawn_bars_verify_until_a_pixel_is_corrupted() {
    let mut fb = surface_bgrx(14, 8);
    assert_eq!(fb.width(), 14);
    assert_eq!(fb.height(), 8);

    assert!(draw_color_bars(&mut fb));
    assert!(verify_color_bars(&fb));

    fb.write_pixel(5, 4, Rgb::new(1, 2, 3)).unwrap();
    assert!(!verify_color_bars(&fb));
}

#[test]
fn degenerate_surfaces_still_draw_and_verify() {
    let mut fb = surface_bgrx(7, 1);
    assert!(draw_color_bars(&mut fb));
    assert!(verify_color_bars(&fb));
}

#[test]
fn surfaces_narrower_than_the_bar_count_are_not_drawn() {
    let mut fb = surface_bgrx(6, 2);
    assert!(!draw_color_bars(&mut fb));
    assert_eq!(fb.bytes(), &[0xEE; 48][..]);
}

#[test]
fn write_then_read_returns_the_encoded_word() {
    let mut fb = surface_bgrx(3, 3);
    fb.write_pixel(2, 1, Rgb::new(0x12, 0x34, 0x56)).unwrap();
    assert_eq!(fb.read_raw_pixel(2, 1), Some(0x0012_3456));
    assert_eq!(fb.read_raw_pixel(1, 2), Some(0xEEEE_EEEE));
    assert_eq!(fb.write_word(0, 0, 0xDEAD_BEEF), Ok(()));
    assert_eq!(fb.read_raw_pixel(0, 0), Some(0xDEAD_BEEF));
    assert_eq!(fb.write_word(3, 0, 1), Err(FramebufferError::OutOfBounds));
}

#[test]
fn bar_palette_has_seven_distinct_colors() {
    assert_eq!(BAR_COUNT, 7);
    assert_eq!(bar_color(0), Rgb::new(255, 255, 255));
    for i in 0..BAR_COUNT {
        for j in (i + 1)..BAR_COUNT {
            assert_ne!(bar_color(i), bar_color(j));
        }
    }
}
