use ferric::api::{Key, KeyEvent};
use ferric::gui::{key_to_text, map_key_event, FbLayout, FbPixel, GuiKey, GuiKeyEvent, PremultipliedRgba};

fn layout_bgrx() -> FbLayout {
    FbLayout {
        width: 2,
        height: 2,
        bytes_per_pixel: 4,
        red_size: 8,
        red_shift: 16,
        green_size: 8,
        green_shift: 8,
        blue_size: 8,
        blue_shift: 0,
    }
}

fn layout_rgb565() -> FbLayout {
    FbLayout {
        width: 2,
        height: 2,
        bytes_per_pixel: 2,
        red_size: 5,
        red_shift: 11,
        green_size: 6,
        green_shift: 5,
        blue_size: 5,
        blue_shift: 0,
    }
}

#[test]
fn fb_pixel_from_rgb_encodes_to_bgrx() {
    let l = layout_bgrx();
    let p = FbPixel::from_rgb(0xFF, 0x12, 0x34);
    assert_eq!(p.encode(&l), 0x00FF_1234);
}

#[test]
fn fb_pixel_from_rgb_encodes_to_rgb565() {
    let l = layout_rgb565();
    let p = FbPixel::from_rgb(0xFF, 0x00, 0x00);
    assert_eq!(p.encode(&l), 0xF800);
    let gray = FbPixel::from_rgb(0x80, 0x80, 0x80);
    assert_eq!(gray.encode(&l), 0x7BEF);
}

#[test]
fn fb_pixel_blend_composites_over_existing() {
    let mut p = FbPixel { red: 0, green: 0, blue: 0, alpha: 0 };
    p.blend(PremultipliedRgba { red: 0x7F, green: 0x7F, blue: 0x7F, alpha: 0x80 });
    assert_eq!(p.red, 0x7F);
    assert_eq!(p.green, 0x7F);
    assert_eq!(p.blue, 0x7F);
    assert_eq!(p.alpha, 0x80);
}

#[test]
fn opaque_blend_overwrites_below() {
    let mut p = FbPixel::from_rgb(0xFF, 0, 0);
    p.blend(PremultipliedRgba { red: 0, green: 0, blue: 0xFF, alpha: 0xFF });
    assert_eq!(p, FbPixel::from_rgb(0, 0, 0xFF));
}

#[test]
fn key_events_map_to_slint_window_events() {
    assert!(matches!(map_key_event(KeyEvent::Press(Key::Escape)), Some(GuiKeyEvent::Pressed { .. })));
    assert!(matches!(map_key_event(KeyEvent::Release(Key::Escape)), Some(GuiKeyEvent::Released { .. })));
    assert!(map_key_event(KeyEvent::Press(Key::Char('A'))).is_some());
    assert!(map_key_event(KeyEvent::Press(Key::Unknown(0x9F))).is_none());
}

#[test]
fn text_rep_of_char_and_control_keys() {
    assert_eq!(key_to_text(Key::Char('x')).unwrap(), GuiKey::Char('x'));
    assert_eq!(key_to_text(Key::Enter).unwrap(), GuiKey::Return);
    assert!(key_to_text(Key::Unknown(0)).is_none());
}

#[test]
fn half_covered_pixel_keeps_half_of_what_was_below() {
    let mut p = FbPixel::from_rgb(200, 100, 0);
    p.blend(PremultipliedRgba { red: 0, green: 0, blue: 0x7F, alpha: 0x80 });
    assert_eq!(p, FbPixel::from_rgba(99, 49, 0x7F, 255));
    assert_eq!(key_to_text(Key::F(12)), Some(GuiKey::F(12)));
    assert_eq!(key_to_text(Key::Char('\u{7}')), None);
}
