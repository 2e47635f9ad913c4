use ferric::api::{Key, KeyEvent};
use ferric::terminal::terminal_byte_to_key;

#[test]
fn printable_bytes_map_to_char_keys() {
    assert_eq!(terminal_byte_to_key(b'a'), Some(KeyEvent::Press(Key::Char('a'))));
    assert_eq!(terminal_byte_to_key(b' '), Some(KeyEvent::Press(Key::Char(' '))));
    assert_eq!(terminal_byte_to_key(b'Z'), Some(KeyEvent::Press(Key::Char('Z'))));
}

#[test]
fn carriage_return_and_newline_mean_enter() {
    assert_eq!(terminal_byte_to_key(b'\r'), Some(KeyEvent::Press(Key::Enter)));
    assert_eq!(terminal_byte_to_key(b'\n'), Some(KeyEvent::Press(Key::Enter)));
}

#[test]
fn backspace_variants_delete_and_tab() {
    assert_eq!(terminal_byte_to_key(0x08), Some(KeyEvent::Press(Key::Backspace)));
    assert_eq!(terminal_byte_to_key(0x7F), Some(KeyEvent::Press(Key::Backspace)));
    assert_eq!(terminal_byte_to_key(b'\t'), Some(KeyEvent::Press(Key::Tab)));
    assert_eq!(terminal_byte_to_key(0x1B), Some(KeyEvent::Press(Key::Escape)));
}

#[test]
fn unassigned_control_bytes_are_ignored() {
    assert_eq!(terminal_byte_to_key(0x01), None);
    assert_eq!(terminal_byte_to_key(0x03), None);
    assert_eq!(terminal_byte_to_key(0x10), None);
    assert_eq!(terminal_byte_to_key(0x16), None);
}

#[test]
fn bytes_above_ascii_are_ignored() {
    assert_eq!(terminal_byte_to_key(0x80), None);
    assert_eq!(terminal_byte_to_key(0xFF), None);
    assert_eq!(terminal_byte_to_key(b'~'), Some(KeyEvent::Press(Key::Char('~'))));
}
