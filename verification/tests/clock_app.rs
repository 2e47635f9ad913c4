use ferric::api::{Key, KeyEvent, TimeOfDay};
use ferric::clock_app::{dir_of, format_time, ClockSession, ClockWindow, Dir, HEIGHT, MOVE_STEP, REPEAT_PERIOD_NS, WIDTH};

const SCREEN_W: u32 = 320;
const SCREEN_H: u32 = 240;

#[test]
fn translate_clamps_the_window_to_the_screen() {
    let mut window = ClockWindow::new();
    window.translate(-100, -100, SCREEN_W, SCREEN_H);
    assert_eq!(window.origin(), (0, 0));

    window.translate(1000, 1000, SCREEN_W, SCREEN_H);
    assert_eq!(window.origin(), (SCREEN_W as i32 - 220, SCREEN_H as i32 - 180));

    let mut tiny = ClockWindow::new();
    tiny.translate(50, 50, 100, 100);
    assert_eq!(tiny.origin(), (0, 0));
}

#[test]
fn place_centered_centers_the_window() {
    let mut window = ClockWindow::new();
    window.place_centered(SCREEN_W, SCREEN_H);
    assert_eq!(window.origin(), (50, 30));
}

#[test]
fn format_time_pads_each_field_to_two_digits() {
    assert_eq!(format_time(TimeOfDay::new(0, 0, 0)), *b"00:00:00");
    assert_eq!(format_time(TimeOfDay::new(1, 2, 3)), *b"01:02:03");
    assert_eq!(format_time(TimeOfDay::new(23, 59, 59)), *b"23:59:59");
}

#[test]
fn face_sits_below_the_title_bar() {
    let mut window = ClockWindow::new();
    window.place_centered(SCREEN_W, SCREEN_H);
    assert_eq!(window.face_center(), (50 + 110, 30 + 20 + 80));
    assert_eq!((WIDTH, HEIGHT), (220, 180));
}

#[test]
fn arrows_map_to_directions() {
    assert_eq!(dir_of(Key::Up), Some(Dir::Up));
    assert_eq!(dir_of(Key::Right), Some(Dir::Right));
    assert_eq!(dir_of(Key::Enter), None);
    assert_eq!(Dir::Left.step(), (-MOVE_STEP, 0));
    assert_eq!(Dir::Down.step(), (0, MOVE_STEP));
}

#[test]
fn held_arrow_repeats_once_per_period_and_escape_exits() {
    let mut s = ClockSession::start(SCREEN_W, SCREEN_H, 5);
    assert!(!s.handle_key(KeyEvent::Press(Key::Left)));
    let t = s.tick(1_000, TimeOfDay::new(0, 0, 5));
    assert_eq!(t.moved_from, None);
    assert!(!t.second_changed);

    let t = s.tick(1_000 + REPEAT_PERIOD_NS, TimeOfDay::new(0, 0, 6));
    assert_eq!(t.moved_from, Some((50, 30)));
    assert!(t.second_changed);
    assert_eq!(s.window.origin(), (50 - MOVE_STEP, 30));

    let t = s.tick(1_000 + REPEAT_PERIOD_NS + 1, TimeOfDay::new(0, 0, 6));
    assert_eq!(t.moved_from, None);

    assert!(!s.handle_key(KeyEvent::Release(Key::Left)));
    assert_eq!(s.held, None);
    assert!(s.handle_key(KeyEvent::Press(Key::Escape)));
}
