//! Maps one byte read from a serial terminal to a [`KeyEvent`], following
//! the usual ANSI/xterm input conventions.
use vstd::prelude::*;
use crate::api::{Key, KeyEvent};

verus! {

/// The key a terminal byte stands for: CR and LF are Enter, BS and DEL are
/// Backspace, TAB and ESC their keys, printable ASCII its character; other
/// control bytes stand for nothing.
pub open spec fn terminal_key_spec(byte: u8) -> Option<KeyEvent> {
    if byte == 0x0D || byte == 0x0A {
        Some(KeyEvent::Press(Key::Enter))
    } else if byte == 0x08 || byte == 0x7F {
        Some(KeyEvent::Press(Key::Backspace))
    } else if byte == 0x09 {
        Some(KeyEvent::Press(Key::Tab))
    } else if byte == 0x1B {
        Some(KeyEvent::Press(Key::Escape))
    } else if 0x20 <= byte <= 0x7E {
        Some(KeyEvent::Press(Key::Char(byte as char)))
    } else {
        None
    }
}

/// Maps a terminal byte to an input event; `None` for control bytes the
/// kernel does not consume.
pub fn terminal_byte_to_key(byte: u8) -> (e: Option<KeyEvent>)
    ensures
        e == terminal_key_spec(byte),
{
    let key = if byte == 0x0D || byte == 0x0A {
        Key::Enter
    } else if byte == 0x08 || byte == 0x7F {
        Key::Backspace
    } else if byte == 0x09 {
        Key::Tab
    } else if byte == 0x1B {
        Key::Escape
    } else if 0x20 <= byte && byte <= 0x7E {
        Key::Char(byte as char)
    } else {
        return None;
    };
    Some(KeyEvent::Press(key))
}

} // verus!
