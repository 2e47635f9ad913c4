use ferric::api::{Key, KeyEvent};
use ferric::line_editor::{LineAction, LineEditor, MAX_LINE_CHARS};

fn press(key: Key) -> KeyEvent {
    KeyEvent::Press(key)
}

#[test]
fn printable_keys_accumulate_into_the_line() {
    let mut editor = LineEditor::new();
    for c in ['h', 'e', 'y'] {
        assert_eq!(editor.handle(press(Key::Char(c))), LineAction::Inserted);
    }
    assert_eq!(editor.line(), &['h', 'e', 'y']);
    assert_eq!(editor.to_text(), "hey");
}

#[test]
fn space_is_editable_but_other_control_chars_are_not() {
    let mut editor = LineEditor::new();
    assert_eq!(editor.handle(press(Key::Char(' '))), LineAction::Inserted);
    assert_eq!(editor.handle(press(Key::Tab)), LineAction::Ignored);
    assert_eq!(editor.handle(press(Key::Escape)), LineAction::Ignored);
    assert_eq!(editor.handle(press(Key::Up)), LineAction::Ignored);
    assert_eq!(editor.handle(press(Key::Char('\t'))), LineAction::Ignored);
}

#[test]
fn key_releases_are_ignored() {
    let mut editor = LineEditor::new();
    assert_eq!(editor.handle(KeyEvent::Release(Key::Char('a'))), LineAction::Ignored);
    assert!(editor.line().is_empty());
}

#[test]
fn backspace_removes_the_last_character() {
    let mut editor = LineEditor::new();
    for c in ['a', 'b', 'c'] {
        editor.handle(press(Key::Char(c)));
    }
    assert_eq!(editor.handle(press(Key::Backspace)), LineAction::Erased);
    assert_eq!(editor.handle(press(Key::Backspace)), LineAction::Erased);
    assert_eq!(editor.line(), &['a']);
    assert_eq!(editor.handle(press(Key::Backspace)), LineAction::Erased);
    assert_eq!(editor.handle(press(Key::Backspace)), LineAction::Ignored);
    assert!(editor.line().is_empty());
}

#[test]
fn enter_submits_without_sending_a_character() {
    let mut editor = LineEditor::new();
    editor.handle(press(Key::Char('x')));
    assert_eq!(editor.handle(press(Key::Enter)), LineAction::Submitted);
    assert_eq!(editor.line(), &['x']);
}

#[test]
fn line_caps_at_max_line_chars() {
    let mut editor = LineEditor::new();
    for _ in 0..MAX_LINE_CHARS {
        assert_eq!(editor.handle(press(Key::Char('a'))), LineAction::Inserted);
    }
    assert_eq!(editor.handle(press(Key::Char('a'))), LineAction::Ignored);
    assert_eq!(editor.line().len(), MAX_LINE_CHARS);
}

#[test]
fn clear_empties_the_buffer() {
    let mut editor = LineEditor::new();
    editor.handle(press(Key::Char('x')));
    editor.clear();
    assert!(editor.line().is_empty());
    assert!(editor.to_text().is_empty());
}

#[test]
fn typing_then_backspace_restores_the_line() {
    let mut ed = LineEditor::new();
    ed.handle(KeyEvent::Press(Key::Char('o')));
    ed.handle(KeyEvent::Press(Key::Char('k')));
    assert_eq!(ed.handle(KeyEvent::Press(Key::Char('!'))), LineAction::Inserted);
    assert_eq!(ed.handle(KeyEvent::Press(Key::Backspace)), LineAction::Erased);
    assert_eq!(ed.line(), &['o', 'k']);
}
