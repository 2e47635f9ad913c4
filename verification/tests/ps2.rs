use ferric::api::{Key, KeyEvent};
use ferric::ps2::{Ps2, Ps2Keyboard, DATA_PORT, STATUS_PORT};

#[test]
fn controller_ports_and_status() {
    assert_eq!((DATA_PORT, STATUS_PORT), (0x60, 0x64));
    let c = Ps2::new();
    assert!(c.output_full(0x1D));
    assert!(!c.output_full(0x1C));
}

#[test]
fn keyboard_decodes_bytes_until_an_event() {
    let mut kb = Ps2Keyboard::new();
    assert_eq!(kb.next_key(&[0x1E, 0x9E]), (Some(KeyEvent::Press(Key::Char('a'))), 1));
    assert_eq!(kb.next_key(&[0x9E]), (Some(KeyEvent::Release(Key::Char('a'))), 1));
    assert_eq!(kb.next_key(&[0xE0, 0x48]), (Some(KeyEvent::Press(Key::Up)), 2));
    assert_eq!(kb.next_key(&[0xE0]), (None, 1));
    assert_eq!(kb.feed(0xC8), Some(KeyEvent::Release(Key::Up)));
}
