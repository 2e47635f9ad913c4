use ferric::api::{Key, KeyEvent};
use ferric::scancodes::ScancodeDecoder;

fn feed(decoder: &mut ScancodeDecoder, bytes: &[u8]) -> Vec<KeyEvent> {
    bytes.iter().filter_map(|b| decoder.push(*b)).collect()
}

#[test]
fn make_and_break_of_a_letter() {
    let mut d = ScancodeDecoder::new();
    assert_eq!(feed(&mut d, &[0x1E]), vec![KeyEvent::Press(Key::Char('a'))]);
    assert_eq!(feed(&mut d, &[0x9E]), vec![KeyEvent::Release(Key::Char('a'))]);
}

#[test]
fn space_enter_and_backspace() {
    let mut d = ScancodeDecoder::new();
    assert_eq!(
        feed(&mut d, &[0x39, 0x1C, 0x0E, 0x0F]),
        vec![
            KeyEvent::Press(Key::Char(' ')),
            KeyEvent::Press(Key::Enter),
            KeyEvent::Press(Key::Backspace),
            KeyEvent::Press(Key::Tab),
        ]
    );
}

#[test]
fn extended_prefix_tracks_arrows() {
    let mut d = ScancodeDecoder::new();
    assert_eq!(feed(&mut d, &[0xE0, 0x48]), vec![KeyEvent::Press(Key::Up)]);
    assert_eq!(feed(&mut d, &[0xE0, 0xC8]), vec![KeyEvent::Release(Key::Up)]);
    assert_eq!(feed(&mut d, &[0xE0, 0x1D]), vec![KeyEvent::Press(Key::RightControl)]);
}

#[test]
fn shift_produces_upper_case_and_punctuation() {
    let mut d = ScancodeDecoder::new();
    assert_eq!(feed(&mut d, &[0x2A]), vec![KeyEvent::Press(Key::LeftShift)]);
    assert_eq!(
        feed(&mut d, &[0x1E, 0x02]),
        vec![KeyEvent::Press(Key::Char('A')), KeyEvent::Press(Key::Char('!'))]
    );
    assert_eq!(feed(&mut d, &[0xAA]), vec![KeyEvent::Release(Key::LeftShift)]);
    assert_eq!(feed(&mut d, &[0x1E]), vec![KeyEvent::Press(Key::Char('a'))]);
}

#[test]
fn right_shift_behaves_like_left_shift() {
    let mut d = ScancodeDecoder::new();
    assert_eq!(feed(&mut d, &[0x36]), vec![KeyEvent::Press(Key::RightShift)]);
    assert_eq!(feed(&mut d, &[0x0C]), vec![KeyEvent::Press(Key::Char('_'))]);
    assert_eq!(feed(&mut d, &[0xB6]), vec![KeyEvent::Release(Key::RightShift)]);
    assert_eq!(feed(&mut d, &[0x0C]), vec![KeyEvent::Press(Key::Char('-'))]);
}

#[test]
fn caps_lock_uppercases_letters_but_not_punctuation() {
    let mut d = ScancodeDecoder::new();
    feed(&mut d, &[0x3A]);
    assert_eq!(
        feed(&mut d, &[0x1E, 0x02, 0x10]),
        vec![
            KeyEvent::Press(Key::Char('A')),
            KeyEvent::Press(Key::Char('1')),
            KeyEvent::Press(Key::Char('Q')),
        ]
    );
    assert_eq!(
        feed(&mut d, &[0x2A, 0x1E, 0xAA]),
        vec![
            KeyEvent::Press(Key::LeftShift),
            KeyEvent::Press(Key::Char('a')),
            KeyEvent::Release(Key::LeftShift),
        ]
    );
    feed(&mut d, &[0x3A]);
    assert_eq!(feed(&mut d, &[0x1E]), vec![KeyEvent::Press(Key::Char('a'))]);
}

#[test]
fn pause_sequence_is_swallowed() {
    let mut d = ScancodeDecoder::new();
    assert_eq!(feed(&mut d, &[0xE1, 0x1D, 0x45, 0xE1, 0x9D, 0xC5]), vec![]);
    assert_eq!(feed(&mut d, &[0x1E]), vec![KeyEvent::Press(Key::Char('a'))]);
}

#[test]
fn unassigned_codes_surface_as_unknown() {
    let mut d = ScancodeDecoder::new();
    assert_eq!(feed(&mut d, &[0x7F]), vec![KeyEvent::Press(Key::Unknown(0x7F))]);
}

#[test]
fn function_keys_map_to_f() {
    let mut d = ScancodeDecoder::new();
    assert_eq!(
        feed(&mut d, &[0x3B, 0x44, 0x57, 0x58]),
        vec![
            KeyEvent::Press(Key::F(1)),
            KeyEvent::Press(Key::F(10)),
            KeyEvent::Press(Key::F(11)),
            KeyEvent::Press(Key::F(12)),
        ]
    );
}

#[test]
fn either_shift_held_keeps_letters_upper_case() {
    let mut d = ScancodeDecoder::new();
    assert_eq!(
        feed(&mut d, &[0x2A, 0x36, 0xAA, 0x1E, 0xB6, 0x1E]),
        vec![
            KeyEvent::Press(Key::LeftShift),
            KeyEvent::Press(Key::RightShift),
            KeyEvent::Release(Key::LeftShift),
            KeyEvent::Press(Key::Char('A')),
            KeyEvent::Release(Key::RightShift),
            KeyEvent::Press(Key::Char('a')),
        ]
    );
}
