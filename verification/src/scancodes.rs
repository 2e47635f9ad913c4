//! Streaming PS/2 scancode set-1 decoder: feeds raw bytes from the keyboard
//! and yields press/release [`KeyEvent`]s using a US layout. Stateful because
//! make codes may be preceded by an 0xE0 prefix and the pause sequence spans
//! several bytes.
use vstd::prelude::*;
use crate::api::{Key, KeyEvent};

verus! {

/// US-layout characters of a set-1 make code, unshifted and shifted; zero
/// when the code is not printable.
pub open spec fn us_layout(make: u8) -> (u8, u8) {
    match make {
        0x02 => (0x31, 0x21),
        0x03 => (0x32, 0x40),
        0x04 => (0x33, 0x23),
        0x05 => (0x34, 0x24),
        0x06 => (0x35, 0x25),
        0x07 => (0x36, 0x5E),
        0x08 => (0x37, 0x26),
        0x09 => (0x38, 0x2A),
        0x0A => (0x39, 0x28),
        0x0B => (0x30, 0x29),
        0x0C => (0x2D, 0x5F),
        0x0D => (0x3D, 0x2B),
        0x10 => (0x71, 0x51),
        0x11 => (0x77, 0x57),
        0x12 => (0x65, 0x45),
        0x13 => (0x72, 0x52),
        0x14 => (0x74, 0x54),
        0x15 => (0x79, 0x59),
        0x16 => (0x75, 0x55),
        0x17 => (0x69, 0x49),
        0x18 => (0x6F, 0x4F),
        0x19 => (0x70, 0x50),
        0x1A => (0x5B, 0x7B),
        0x1B => (0x5D, 0x7D),
        0x1E => (0x61, 0x41),
        0x1F => (0x73, 0x53),
        0x20 => (0x64, 0x44),
        0x21 => (0x66, 0x46),
        0x22 => (0x67, 0x47),
        0x23 => (0x68, 0x48),
        0x24 => (0x6A, 0x4A),
        0x25 => (0x6B, 0x4B),
        0x26 => (0x6C, 0x4C),
        0x27 => (0x3B, 0x3A),
        0x28 => (0x27, 0x22),
        0x29 => (0x60, 0x7E),
        0x2B => (0x5C, 0x7C),
        0x2C => (0x7A, 0x5A),
        0x2D => (0x78, 0x58),
        0x2E => (0x63, 0x43),
        0x2F => (0x76, 0x56),
        0x30 => (0x62, 0x42),
        0x31 => (0x6E, 0x4E),
        0x32 => (0x6D, 0x4D),
        0x33 => (0x2C, 0x3C),
        0x34 => (0x2E, 0x3E),
        0x35 => (0x2F, 0x3F),
        0x39 => (0x20, 0x20),
        _ => (0, 0),
    }
}

fn layout(make: u8) -> (r: (u8, u8))
    ensures
        r == us_layout(make),
{
    match make {
        0x02 => (0x31, 0x21),
        0x03 => (0x32, 0x40),
        0x04 => (0x33, 0x23),
        0x05 => (0x34, 0x24),
        0x06 => (0x35, 0x25),
        0x07 => (0x36, 0x5E),
        0x08 => (0x37, 0x26),
        0x09 => (0x38, 0x2A),
        0x0A => (0x39, 0x28),
        0x0B => (0x30, 0x29),
        0x0C => (0x2D, 0x5F),
        0x0D => (0x3D, 0x2B),
        0x10 => (0x71, 0x51),
        0x11 => (0x77, 0x57),
        0x12 => (0x65, 0x45),
        0x13 => (0x72, 0x52),
        0x14 => (0x74, 0x54),
        0x15 => (0x79, 0x59),
        0x16 => (0x75, 0x55),
        0x17 => (0x69, 0x49),
        0x18 => (0x6F, 0x4F),
        0x19 => (0x70, 0x50),
        0x1A => (0x5B, 0x7B),
        0x1B => (0x5D, 0x7D),
        0x1E => (0x61, 0x41),
        0x1F => (0x73, 0x53),
        0x20 => (0x64, 0x44),
        0x21 => (0x66, 0x46),
        0x22 => (0x67, 0x47),
        0x23 => (0x68, 0x48),
        0x24 => (0x6A, 0x4A),
        0x25 => (0x6B, 0x4B),
        0x26 => (0x6C, 0x4C),
        0x27 => (0x3B, 0x3A),
        0x28 => (0x27, 0x22),
        0x29 => (0x60, 0x7E),
        0x2B => (0x5C, 0x7C),
        0x2C => (0x7A, 0x5A),
        0x2D => (0x78, 0x58),
        0x2E => (0x63, 0x43),
        0x2F => (0x76, 0x56),
        0x30 => (0x62, 0x42),
        0x31 => (0x6E, 0x4E),
        0x32 => (0x6D, 0x4D),
        0x33 => (0x2C, 0x3C),
        0x34 => (0x2E, 0x3E),
        0x35 => (0x2F, 0x3F),
        0x39 => (0x20, 0x20),
        _ => (0, 0),
    }
}

/// Non-character keys for a make code; scancode set 1, US layout.
pub open spec fn control_key_spec(extended: bool, make: u8) -> Option<Key> {
    match (extended, make) {
        (false, 0x0E) => Some(Key::Backspace),
        (false, 0x0F) => Some(Key::Tab),
        (false, 0x1C) => Some(Key::Enter),
        (false, 0x01) => Some(Key::Escape),
        (false, 0x2A) => Some(Key::LeftShift),
        (false, 0x36) => Some(Key::RightShift),
        (false, 0x1D) => Some(Key::LeftControl),
        (false, 0x38) => Some(Key::LeftAlt),
        (false, 0x3A) => Some(Key::CapsLock),
        (false, m) if 0x3B <= m && m <= 0x44 => Some(Key::F((make - 0x3B + 1) as u8)),
        (false, 0x57) => Some(Key::F(11)),
        (false, 0x58) => Some(Key::F(12)),
        (false, 0x47) => Some(Key::Home),
        (false, 0x48) => Some(Key::Up),
        (false, 0x49) => Some(Key::PageUp),
        (false, 0x4B) => Some(Key::Left),
        (false, 0x4D) => Some(Key::Right),
        (false, 0x4F) => Some(Key::End),
        (false, 0x50) => Some(Key::Down),
        (false, 0x51) => Some(Key::PageDown),
        (false, 0x52) => Some(Key::Insert),
        (false, 0x53) => Some(Key::Delete),
        (true, 0x1D) => Some(Key::RightControl),
        (true, 0x38) => Some(Key::RightAlt),
        (true, 0x47) => Some(Key::Home),
        (true, 0x48) => Some(Key::Up),
        (true, 0x49) => Some(Key::PageUp),
        (true, 0x4B) => Some(Key::Left),
        (true, 0x4D) => Some(Key::Right),
        (true, 0x4F) => Some(Key::End),
        (true, 0x50) => Some(Key::Down),
        (true, 0x51) => Some(Key::PageDown),
        (true, 0x52) => Some(Key::Insert),
        (true, 0x53) => Some(Key::Delete),
        _ => None,
    }
}

fn control_key(extended: bool, make: u8) -> (k: Option<Key>)
    ensures
        k == control_key_spec(extended, make),
{
    match (extended, make) {
        (false, 0x0E) => Some(Key::Backspace),
        (false, 0x0F) => Some(Key::Tab),
        (false, 0x1C) => Some(Key::Enter),
        (false, 0x01) => Some(Key::Escape),
        (false, 0x2A) => Some(Key::LeftShift),
        (false, 0x36) => Some(Key::RightShift),
        (false, 0x1D) => Some(Key::LeftControl),
        (false, 0x38) => Some(Key::LeftAlt),
        (false, 0x3A) => Some(Key::CapsLock),
        (false, m) if 0x3B <= m && m <= 0x44 => Some(Key::F(make - 0x3B + 1)),
        (false, 0x57) => Some(Key::F(11)),
        (false, 0x58) => Some(Key::F(12)),
        (false, 0x47) => Some(Key::Home),
        (false, 0x48) => Some(Key::Up),
        (false, 0x49) => Some(Key::PageUp),
        (false, 0x4B) => Some(Key::Left),
        (false, 0x4D) => Some(Key::Right),
        (false, 0x4F) => Some(Key::End),
        (false, 0x50) => Some(Key::Down),
        (false, 0x51) => Some(Key::PageDown),
        (false, 0x52) => Some(Key::Insert),
        (false, 0x53) => Some(Key::Delete),
        (true, 0x1D) => Some(Key::RightControl),
        (true, 0x38) => Some(Key::RightAlt),
        (true, 0x47) => Some(Key::Home),
        (true, 0x48) => Some(Key::Up),
        (true, 0x49) => Some(Key::PageUp),
        (true, 0x4B) => Some(Key::Left),
        (true, 0x4D) => Some(Key::Right),
        (true, 0x4F) => Some(Key::End),
        (true, 0x50) => Some(Key::Down),
        (true, 0x51) => Some(Key::PageDown),
        (true, 0x52) => Some(Key::Insert),
        (true, 0x53) => Some(Key::Delete),
        _ => None,
    }
}

/// Decodes make/break scancode bytes into logical keys.
#[derive(Clone, Copy, Debug, PartialEq, Eq, Structural)]
pub struct ScancodeDecoder {
    extended: bool,
    pause: bool,
    left_shift: bool,
    right_shift: bool,
    caps_lock: bool,
}

/// The decoder state: pending 0xE0 prefix, inside the pause sequence, the
/// two shift keys held, caps lock engaged.
pub struct DecoderState {
    pub extended: bool,
    pub pause: bool,
    pub left_shift: bool,
    pub right_shift: bool,
    pub caps_lock: bool,
}

/// The key a make code stands for under the current modifiers: control keys
/// first, then printable characters (letters follow caps lock XOR shift,
/// other characters follow shift alone), else `Unknown`.
pub open spec fn map_spec(s: DecoderState, extended: bool, make: u8) -> Key {
    if control_key_spec(extended, make) is Some {
        control_key_spec(extended, make).unwrap()
    } else {
        let (base, shifted_char) = us_layout(make);
        let shifted = s.left_shift || s.right_shift;
        if base != 0 {
            let ch: u8 = if 0x61 <= base <= 0x7A {
                if s.caps_lock != shifted { (base - 32) as u8 } else { base }
            } else if shifted {
                shifted_char
            } else {
                base
            };
            Key::Char(ch as char)
        } else {
            Key::Unknown(make)
        }
    }
}

/// One scancode byte fed to the decoder: inside the pause sequence bytes are
/// swallowed until 0xC5; 0xE0 arms the extended prefix; 0xE1 starts the
/// pause sequence; any other byte is a make (bit 7 clear) or break code,
/// decoded with the pending prefix, which it consumes. Shift presses and
/// releases track the shift keys; a caps-lock press toggles caps lock.
pub open spec fn push_spec(s: DecoderState, byte: u8) -> (DecoderState, Option<KeyEvent>) {
    if s.pause {
        (DecoderState { pause: byte != 0xC5, ..s }, None)
    } else if byte == 0xE0 {
        (DecoderState { extended: true, ..s }, None)
    } else if byte == 0xE1 {
        (DecoderState { pause: true, ..s }, None)
    } else {
        let event = if byte >= 0x80 {
            KeyEvent::Release(map_spec(s, s.extended, (byte - 0x80) as u8))
        } else {
            KeyEvent::Press(map_spec(s, s.extended, byte))
        };
        let cleared = DecoderState { extended: false, ..s };
        let next = match event {
            KeyEvent::Press(Key::LeftShift) => DecoderState { left_shift: true, ..cleared },
            KeyEvent::Press(Key::RightShift) => DecoderState { right_shift: true, ..cleared },
            KeyEvent::Press(Key::CapsLock) => DecoderState { caps_lock: !s.caps_lock, ..cleared },
            KeyEvent::Release(Key::LeftShift) => DecoderState { left_shift: false, ..cleared },
            KeyEvent::Release(Key::RightShift) => DecoderState { right_shift: false, ..cleared },
            _ => cleared,
        };
        (next, Some(event))
    }
}

/// Holding the right shift key decodes every byte to the same event as
/// holding the left one.
pub proof fn lemma_either_shift_decodes_alike(s: DecoderState, byte: u8)
    ensures
        push_spec(DecoderState { left_shift: true, right_shift: false, ..s }, byte).1 == push_spec(
            DecoderState { left_shift: false, right_shift: true, ..s },
            byte,
        ).1,
{
}

/// A decoder ready for the next key, with no prefix pending, caps lock off
/// and the left shift key held or not.
pub open spec fn typing_state(shift: bool) -> DecoderState {
    DecoderState { extended: false, pause: false, left_shift: shift, right_shift: false, caps_lock: false }
}

/// The event a make code gives in `typing_state(shift)`.
pub open spec fn typed(shift: bool, make: u8) -> Option<KeyEvent> {
    push_spec(typing_state(shift), make).1
}

/// The printable keys of the main block sit where a US keyboard has them.
/// Each key row, read left to right, is a run of consecutive make codes:
/// the number row from 0x02, the `Q` row from 0x10, the `A` row from 0x1E
/// and the `Z` row (after the backslash key at 0x2B) from 0x2C; the space
/// bar is 0x39. Pressed alone a key types its lower character, with shift
/// its upper one.
pub proof fn lemma_us_key_positions(i: int)
    ensures
        0 <= i < 12 ==> typed(false, (0x02 + i) as u8) == Some(
            KeyEvent::Press(Key::Char(seq!['1', '2', '3', '4', '5', '6', '7', '8', '9', '0', '-', '='][i])),
        ) && typed(true, (0x02 + i) as u8) == Some(
            KeyEvent::Press(Key::Char(seq!['!', '@', '#', '$', '%', '^', '&', '*', '(', ')', '_', '+'][i])),
        ),
        0 <= i < 12 ==> typed(false, (0x10 + i) as u8) == Some(
            KeyEvent::Press(Key::Char(seq!['q', 'w', 'e', 'r', 't', 'y', 'u', 'i', 'o', 'p', '[', ']'][i])),
        ) && typed(true, (0x10 + i) as u8) == Some(
            KeyEvent::Press(Key::Char(seq!['Q', 'W', 'E', 'R', 'T', 'Y', 'U', 'I', 'O', 'P', '{', '}'][i])),
        ),
        0 <= i < 12 ==> typed(false, (0x1E + i) as u8) == Some(
            KeyEvent::Press(Key::Char(seq!['a', 's', 'd', 'f', 'g', 'h', 'j', 'k', 'l', ';', '\'', '`'][i])),
        ) && typed(true, (0x1E + i) as u8) == Some(
            KeyEvent::Press(Key::Char(seq!['A', 'S', 'D', 'F', 'G', 'H', 'J', 'K', 'L', ':', '"', '~'][i])),
        ),
        0 <= i < 10 ==> typed(false, (0x2C + i) as u8) == Some(
            KeyEvent::Press(Key::Char(seq!['z', 'x', 'c', 'v', 'b', 'n', 'm', ',', '.', '/'][i])),
        ) && typed(true, (0x2C + i) as u8) == Some(
            KeyEvent::Press(Key::Char(seq!['Z', 'X', 'C', 'V', 'B', 'N', 'M', '<', '>', '?'][i])),
        ),
        typed(false, 0x2B) == Some(KeyEvent::Press(Key::Char('\\'))),
        typed(true, 0x2B) == Some(KeyEvent::Press(Key::Char('|'))),
        typed(false, 0x39) == Some(KeyEvent::Press(Key::Char(' '))),
        typed(true, 0x39) == Some(KeyEvent::Press(Key::Char(' '))),
{
}

/// The keys outside the printable block: the editing keys, the modifiers,
/// the function keys F1 to F12 and the arrow keys, whether an arrow comes
/// from the dedicated cluster (after the 0xE0 prefix) or the keypad.
pub proof fn lemma_us_control_key_positions(n: u8)
    ensures
        typed(false, 0x01) == Some(KeyEvent::Press(Key::Escape)),
        typed(false, 0x0E) == Some(KeyEvent::Press(Key::Backspace)),
        typed(false, 0x0F) == Some(KeyEvent::Press(Key::Tab)),
        typed(false, 0x1C) == Some(KeyEvent::Press(Key::Enter)),
        typed(false, 0x2A) == Some(KeyEvent::Press(Key::LeftShift)),
        typed(false, 0x36) == Some(KeyEvent::Press(Key::RightShift)),
        typed(false, 0x3A) == Some(KeyEvent::Press(Key::CapsLock)),
        1 <= n <= 10 ==> typed(false, (0x3A + n) as u8) == Some(KeyEvent::Press(Key::F(n))),
        typed(false, 0x57) == Some(KeyEvent::Press(Key::F(11))),
        typed(false, 0x58) == Some(KeyEvent::Press(Key::F(12))),
        push_spec(typing_state(false), 0xE0).1 is None,
        push_spec(push_spec(typing_state(false), 0xE0).0, 0x48).1 == Some(KeyEvent::Press(Key::Up)),
        push_spec(push_spec(typing_state(false), 0xE0).0, 0x50).1 == Some(KeyEvent::Press(Key::Down)),
        push_spec(push_spec(typing_state(false), 0xE0).0, 0x4B).1 == Some(KeyEvent::Press(Key::Left)),
        push_spec(push_spec(typing_state(false), 0xE0).0, 0x4D).1 == Some(KeyEvent::Press(Key::Right)),
        typed(false, 0x48) == Some(KeyEvent::Press(Key::Up)),
        typed(false, 0x50) == Some(KeyEvent::Press(Key::Down)),
        typed(false, 0x4B) == Some(KeyEvent::Press(Key::Left)),
        typed(false, 0x4D) == Some(KeyEvent::Press(Key::Right)),
{
}

/// A break code (the make code with bit 7 set) releases the very key its
/// make code presses, in any state outside the pause sequence. (The break
/// codes of 0x60 and 0x61 would be the prefix bytes 0xE0 and 0xE1.)
pub proof fn lemma_release_mirrors_press(s: DecoderState, make: u8)
    requires
        !s.pause,
        make < 0x80,
        make != 0x60,
        make != 0x61,
    ensures
        push_spec(s, make).1 matches Some(KeyEvent::Press(k)) && push_spec(s, (make + 0x80) as u8).1
            == Some(KeyEvent::Release(k)),
{
}

/// Shift keys are tracked: pressing either one makes the next letter
/// upper case, and releasing it makes letters lower case again; each
/// caps-lock press flips the case of letters.
pub proof fn lemma_modifiers_change_case(s: DecoderState)
    requires
        !s.pause,
        !s.extended,
    ensures
        push_spec(push_spec(DecoderState { caps_lock: false, ..s }, 0x2A).0, 0x1E).1 == Some(
            KeyEvent::Press(Key::Char('A')),
        ),
        push_spec(push_spec(DecoderState { caps_lock: false, ..s }, 0x36).0, 0x1E).1 == Some(
            KeyEvent::Press(Key::Char('A')),
        ),
        push_spec(push_spec(typing_state(true), 0xAA).0, 0x1E).1 == Some(
            KeyEvent::Press(Key::Char('a')),
        ),
        push_spec(push_spec(typing_state(false), 0x3A).0, 0x1E).1 == Some(
            KeyEvent::Press(Key::Char('A')),
        ),
        push_spec(push_spec(typing_state(true), 0x3A).0, 0x1E).1 == Some(
            KeyEvent::Press(Key::Char('a')),
        ),
        push_spec(push_spec(typing_state(false), 0x3A).0, 0x02).1 == Some(
            KeyEvent::Press(Key::Char('1')),
        ),
{
}

impl View for ScancodeDecoder {
    type V = DecoderState;

    closed spec fn view(&self) -> DecoderState {
        DecoderState {
            extended: self.extended,
            pause: self.pause,
            left_shift: self.left_shift,
            right_shift: self.right_shift,
            caps_lock: self.caps_lock,
        }
    }
}

/// The idle decoder: no prefix, no pause, no modifiers.
pub open spec fn idle_state() -> DecoderState {
    DecoderState {
        extended: false,
        pause: false,
        left_shift: false,
        right_shift: false,
        caps_lock: false,
    }
}

impl ScancodeDecoder {
    /// A decoder starting in the idle state (no prefix, no modifiers held).
    pub fn new() -> (d: Self)
        ensures
            d@ == idle_state(),
    {
        ScancodeDecoder {
            extended: false,
            pause: false,
            left_shift: false,
            right_shift: false,
            caps_lock: false,
        }
    }

    fn shift_active(&self) -> (b: bool)
        ensures
            b == (self.left_shift || self.right_shift),
    {
        self.left_shift || self.right_shift
    }

    /// Maps a make code to a key, applying shift/caps to printable codes.
    fn map(&self, extended: bool, make: u8) -> (k: Key)
        ensures
            k == map_spec(self@, extended, make),
    {
        if let Some(key) = control_key(extended, make) {
            return key;
        }
        let (base, shifted_char) = layout(make);
        if base != 0 {
            let shifted = self.shift_active();
            let ch: u8 = if 0x61 <= base && base <= 0x7A {
                if self.caps_lock != shifted {
                    base - 32
                } else {
                    base
                }
            } else if shifted {
                shifted_char
            } else {
                base
            };
            return Key::Char(ch as char);
        }
        Key::Unknown(make)
    }

    /// Feeds one scancode byte; `None` while an event is still partial
    /// (prefix byte received) or when the byte belongs to the pause sequence.
    pub fn push(&mut self, byte: u8) -> (e: Option<KeyEvent>)
        ensures
            (final(self)@, e) == push_spec(old(self)@, byte),
    {
        if self.pause {
            if byte == 0xC5 {
                self.pause = false;
            }
            return None;
        }
        if byte == 0xE0 {
            self.extended = true;
            return None;
        }
        if byte == 0xE1 {
            self.pause = true;
            return None;
        }
        let extended = self.extended;
        let event = if byte >= 0x80 {
            KeyEvent::Release(self.map(extended, byte - 0x80))
        } else {
            KeyEvent::Press(self.map(extended, byte))
        };
        self.extended = false;
        match event {
            KeyEvent::Press(key) => match key {
                Key::LeftShift => self.left_shift = true,
                Key::RightShift => self.right_shift = true,
                Key::CapsLock => self.caps_lock = !self.caps_lock,
                _ => {},
            },
            KeyEvent::Release(key) => match key {
                Key::LeftShift => self.left_shift = false,
                Key::RightShift => self.right_shift = false,
                _ => {},
            },
        }
        Some(event)
    }
}

} // verus!
