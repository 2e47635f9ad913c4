//! The graphical clock window: its placement on the screen, its digital
//! readout, and the decisions of its event loop (keys that move or close it,
//! the repeat timer that glides it while a direction is held, and the
//! once-a-second redraw).
use vstd::prelude::*;
use crate::api::{Key, KeyEvent, TimeOfDay};

verus! {

pub const WIDTH: u32 = 220;

pub const HEIGHT: u32 = 180;

pub const TITLE_BAR_HEIGHT: u32 = 20;

pub const FACE_RADIUS: u32 = 42;

pub const HOUR_HAND: u32 = 22;

pub const MINUTE_HAND: u32 = 30;

pub const SECOND_HAND: u32 = 36;

/// Pixels the window moves per step.
pub const MOVE_STEP: i32 = 16;

/// Period of the hold-to-move repeat, in nanoseconds.
pub const REPEAT_PERIOD_NS: u64 = 70_000_000;

/// `v` raised to `lo`, then lowered to `hi`.
pub open spec fn clamp_spec(v: int, lo: int, hi: int) -> int {
    let raised = if v > lo {
        v
    } else {
        lo
    };
    if raised < hi {
        raised
    } else {
        hi
    }
}

/// Room left for the window's corner along a screen side of `side` pixels
/// for a window `extent` pixels long (0 when it does not fit), as a signed
/// coordinate.
pub open spec fn room(side: u32, extent: u32) -> i32 {
    (if side > extent {
        side - extent
    } else {
        0
    }) as i32
}

/// The corner coordinate that centers a window `extent` pixels long on a
/// screen side of `side` pixels (0 when it does not fit).
pub open spec fn centered(side: u32, extent: u32) -> i32 {
    ((if side > extent {
        side - extent
    } else {
        0
    }) / 2) as i32
}

/// A rectangular window holding the analog and digital clock, moved by the
/// input loop.
#[derive(Clone, Copy, Debug, PartialEq, Eq, Structural)]
pub struct ClockWindow {
    x: i32,
    y: i32,
}

impl ClockWindow {
    pub closed spec fn spec_x(&self) -> i32 {
        self.x
    }

    pub closed spec fn spec_y(&self) -> i32 {
        self.y
    }

    /// A window parked at the origin.
    pub fn new() -> (w: Self)
        ensures
            w.spec_x() == 0 && w.spec_y() == 0,
    {
        ClockWindow { x: 0, y: 0 }
    }

    /// Centers the window on a `screen_width` by `screen_height` surface
    /// (at the origin along a side too short for it).
    pub fn place_centered(&mut self, screen_width: u32, screen_height: u32)
        ensures
            final(self).spec_x() == centered(screen_width, WIDTH),
            final(self).spec_y() == centered(screen_height, HEIGHT),
    {
        self.x = (screen_width.saturating_sub(WIDTH) / 2) as i32;
        self.y = (screen_height.saturating_sub(HEIGHT) / 2) as i32;
    }

    /// Top-left corner of the window.
    pub fn origin(&self) -> (o: (i32, i32))
        ensures
            o == (self.spec_x(), self.spec_y()),
    {
        (self.x, self.y)
    }

    /// Moves by `(dx, dy)`, keeping the window on a `screen_width` by
    /// `screen_height` surface: each coordinate is raised to 0, then
    /// lowered to the room left for the window.
    pub fn translate(&mut self, dx: i32, dy: i32, screen_width: u32, screen_height: u32)
        requires
            i32::MIN <= old(self).spec_x() + dx <= i32::MAX,
            i32::MIN <= old(self).spec_y() + dy <= i32::MAX,
        ensures
            final(self).spec_x() == clamp_spec(
                old(self).spec_x() + dx,
                0,
                room(screen_width, WIDTH) as int,
            ),
            final(self).spec_y() == clamp_spec(
                old(self).spec_y() + dy,
                0,
                room(screen_height, HEIGHT) as int,
            ),
    {
        let max_x = screen_width.saturating_sub(WIDTH) as i32;
        let max_y = screen_height.saturating_sub(HEIGHT) as i32;
        let nx = self.x + dx;
        let ny = self.y + dy;
        let nx = if nx > 0 {
            nx
        } else {
            0
        };
        let ny = if ny > 0 {
            ny
        } else {
            0
        };
        self.x = if nx < max_x {
            nx
        } else {
            max_x
        };
        self.y = if ny < max_y {
            ny
        } else {
            max_y
        };
    }

    /// Center of the clock face: the middle of the window below its title
    /// bar.
    pub fn face_center(&self) -> (c: (i32, i32))
        requires
            self.spec_x() + WIDTH / 2 <= i32::MAX,
            self.spec_y() + TITLE_BAR_HEIGHT + (HEIGHT - TITLE_BAR_HEIGHT) / 2 <= i32::MAX,
        ensures
            c == ((self.spec_x() + WIDTH / 2) as i32, (self.spec_y() + TITLE_BAR_HEIGHT + (HEIGHT
                - TITLE_BAR_HEIGHT) / 2) as i32),
    {
        (
            self.x + (WIDTH as i32) / 2,
            self.y + (TITLE_BAR_HEIGHT as i32) + ((HEIGHT - TITLE_BAR_HEIGHT) as i32) / 2,
        )
    }
}

/// The two decimal digits of `value` as ASCII (the tens digit may exceed 9
/// for values of 100 and up).
pub open spec fn two_digits_spec(value: u8) -> Seq<u8> {
    seq![(48 + value / 10) as u8, (48 + value % 10) as u8]
}

/// `HH:MM:SS`, each field zero-padded to two digits.
pub open spec fn time_text(time: TimeOfDay) -> Seq<u8> {
    two_digits_spec(time.hours) + seq![58u8] + two_digits_spec(time.minutes) + seq![58u8]
        + two_digits_spec(time.seconds)
}

/// The clock text reads back as the time it shows: eight ASCII characters,
/// hours, minutes and seconds in that order, each as two decimal digits,
/// separated by colons (for field values below 100).
pub proof fn lemma_time_text_reads_back(time: TimeOfDay)
    requires
        time.hours < 100,
        time.minutes < 100,
        time.seconds < 100,
    ensures
        ({
            let t = time_text(time);
            &&& t.len() == 8
            &&& t[2] == 58 && t[5] == 58
            &&& forall|i: int| 0 <= i < 8 && i != 2 && i != 5 ==> 48 <= #[trigger] t[i] <= 57
            &&& (t[0] - 48) * 10 + (t[1] - 48) == time.hours
            &&& (t[3] - 48) * 10 + (t[4] - 48) == time.minutes
            &&& (t[6] - 48) * 10 + (t[7] - 48) == time.seconds
        }),
{
    let t = time_text(time);
    let h = time.hours;
    let m = time.minutes;
    let sec = time.seconds;
    assert(t =~= seq![
        (48 + h / 10) as u8,
        (48 + h % 10) as u8,
        58u8,
        (48 + m / 10) as u8,
        (48 + m % 10) as u8,
        58u8,
        (48 + sec / 10) as u8,
        (48 + sec % 10) as u8,
    ]);
    vstd::arithmetic::div_mod::lemma_fundamental_div_mod(h as int, 10);
    vstd::arithmetic::div_mod::lemma_fundamental_div_mod(m as int, 10);
    vstd::arithmetic::div_mod::lemma_fundamental_div_mod(sec as int, 10);
}

/// Writes the two decimal digits of `value` at `out[at]` and `out[at + 1]`.
pub fn two_digits(value: u8, out: &mut [u8; 8], at: usize)
    requires
        at + 2 <= 8,
    ensures
        final(out)@ == old(out)@.update(at as int, (48 + value / 10) as u8).update(
            at + 1,
            (48 + value % 10) as u8,
        ),
{
    out[at] = 48 + value / 10;
    out[at + 1] = 48 + value % 10;
}

/// `HH:MM:SS`, each field zero-padded to two digits.
pub fn format_time(time: TimeOfDay) -> (buf: [u8; 8])
    ensures
        buf@ == time_text(time),
{
    let mut buf = [0u8; 8];
    two_digits(time.hours, &mut buf, 0);
    buf[2] = 58;
    two_digits(time.minutes, &mut buf, 3);
    buf[5] = 58;
    two_digits(time.seconds, &mut buf, 6);
    assert(buf@ =~= time_text(time));
    buf
}

/// A direction the window can be moved in.
#[derive(Clone, Copy, Debug, PartialEq, Eq, Structural)]
pub enum Dir {
    Up,
    Down,
    Left,
    Right,
}

pub open spec fn step_spec(dir: Dir) -> (i32, i32) {
    match dir {
        Dir::Up => (0, (-MOVE_STEP) as i32),
        Dir::Down => (0, MOVE_STEP),
        Dir::Left => ((-MOVE_STEP) as i32, 0),
        Dir::Right => (MOVE_STEP, 0),
    }
}

impl Dir {
    /// The move of one step in this direction; `+y` points down.
    pub fn step(self) -> (d: (i32, i32))
        ensures
            d == step_spec(self),
    {
        match self {
            Dir::Up => (0, -MOVE_STEP),
            Dir::Down => (0, MOVE_STEP),
            Dir::Left => (-MOVE_STEP, 0),
            Dir::Right => (MOVE_STEP, 0),
        }
    }
}

pub open spec fn dir_of_spec(key: Key) -> Option<Dir> {
    match key {
        Key::Up => Some(Dir::Up),
        Key::Down => Some(Dir::Down),
        Key::Left => Some(Dir::Left),
        Key::Right => Some(Dir::Right),
        _ => None,
    }
}

/// The direction an arrow key moves the window in.
pub fn dir_of(key: Key) -> (d: Option<Dir>)
    ensures
        d == dir_of_spec(key),
{
    match key {
        Key::Up => Some(Dir::Up),
        Key::Down => Some(Dir::Down),
        Key::Left => Some(Dir::Left),
        Key::Right => Some(Dir::Right),
        _ => None,
    }
}

/// Only the four arrow keys move the window, each by one step of
/// `MOVE_STEP` pixels in the direction it is named for (screen `y` grows
/// downwards): Up and Down move it vertically, Left and Right horizontally.
pub proof fn lemma_arrow_keys_move_as_named(key: Key)
    ensures
        dir_of_spec(key) is Some <==> (key is Up || key is Down || key is Left || key is Right),
        dir_of_spec(key) matches Some(d) ==> {
            let (dx, dy) = step_spec(d);
            &&& key is Up ==> dx == 0 && dy == -MOVE_STEP
            &&& key is Down ==> dx == 0 && dy == MOVE_STEP
            &&& key is Left ==> dx == -MOVE_STEP && dy == 0
            &&& key is Right ==> dx == MOVE_STEP && dy == 0
        },
{
}

/// The clock app's state between events.
#[derive(Clone, Copy, Debug, PartialEq, Eq, Structural)]
pub struct ClockSession {
    pub window: ClockWindow,
    /// The direction held down, repeating its move.
    pub held: Option<Dir>,
    /// Uptime of the last repeat move (0: move on the next tick).
    pub last_move_ns: u64,
    /// The second the window last showed.
    pub shown_second: u8,
    pub screen_w: u32,
    pub screen_h: u32,
}

/// What the loop must do after a tick: repaint the console under the
/// window's former corner and redraw the window when it moved, and redraw
/// it again when the displayed second changed.
#[derive(Clone, Copy, Debug, PartialEq, Eq)]
pub struct ClockTick {
    pub moved_from: Option<(i32, i32)>,
    pub second_changed: bool,
}

/// The window stays inside the signed coordinates of a screen that fits
/// them.
pub open spec fn session_wf(s: ClockSession) -> bool {
    &&& s.screen_w <= i32::MAX
    &&& s.screen_h <= i32::MAX
    &&& 0 <= s.window.spec_x() <= room(s.screen_w, WIDTH)
    &&& 0 <= s.window.spec_y() <= room(s.screen_h, HEIGHT)
}

/// The elapsed time from `last` to `now` on a wrapping nanosecond counter.
pub open spec fn elapsed_ns(now: u64, last: u64) -> int {
    if now >= last {
        now - last
    } else {
        now + (u64::MAX - last) + 1
    }
}

impl ClockSession {
    /// A session on a `screen_w` by `screen_h` screen: the window centered,
    /// nothing held, showing second `second`.
    pub fn start(screen_w: u32, screen_h: u32, second: u8) -> (s: Self)
        requires
            screen_w <= i32::MAX,
            screen_h <= i32::MAX,
        ensures
            session_wf(s),
            s.window.spec_x() == centered(screen_w, WIDTH),
            s.window.spec_y() == centered(screen_h, HEIGHT),
            s.held is None,
            s.last_move_ns == 0,
            s.shown_second == second,
            s.screen_w == screen_w,
            s.screen_h == screen_h,
    {
        let mut window = ClockWindow::new();
        window.place_centered(screen_w, screen_h);
        ClockSession { window, held: None, last_move_ns: 0, shown_second: second, screen_w, screen_h }
    }

    /// Applies a key event; true when the app must close (Escape pressed).
    /// An arrow press holds its direction and moves at once on the next
    /// tick; releasing an arrow stops the repeat.
    pub fn handle_key(&mut self, event: KeyEvent) -> (exit: bool)
        requires
            session_wf(*old(self)),
        ensures
            session_wf(*final(self)),
            exit == (event == KeyEvent::Press(Key::Escape)),
            exit ==> *final(self) == *old(self),
            !exit ==> match event {
                KeyEvent::Press(k) => match dir_of_spec(k) {
                    Some(d) => *final(self) == (ClockSession {
                        held: Some(d),
                        last_move_ns: 0,
                        ..*old(self)
                    }),
                    None => *final(self) == *old(self),
                },
                KeyEvent::Release(k) => if dir_of_spec(k) is Some {
                    *final(self) == (ClockSession { held: None, ..*old(self) })
                } else {
                    *final(self) == *old(self)
                },
            },
    {
        match event {
            KeyEvent::Press(Key::Escape) => {
                return true;
            },
            KeyEvent::Press(key) => {
                if let Some(dir) = dir_of(key) {
                    self.held = Some(dir);
                    self.last_move_ns = 0;
                }
            },
            KeyEvent::Release(key) => {
                if dir_of(key).is_some() {
                    self.held = None;
                }
            },
        }
        false
    }

    /// Advances the session to uptime `now_ns` and wall time `time`: a held
    /// direction moves the window one step once a repeat period has passed
    /// since the last move, and a new second asks for a redraw.
    pub fn tick(&mut self, now_ns: u64, time: TimeOfDay) -> (t: ClockTick)
        requires
            session_wf(*old(self)),
        ensures
            session_wf(*final(self)),
            final(self).held == old(self).held,
            final(self).shown_second == time.seconds,
            t.second_changed == (time.seconds != old(self).shown_second),
            match old(self).held {
                Some(d) => if elapsed_ns(now_ns, old(self).last_move_ns) >= REPEAT_PERIOD_NS {
                    let (dx, dy) = step_spec(d);
                    let x = clamp_spec(
                        old(self).window.spec_x() + dx,
                        0,
                        room(old(self).screen_w, WIDTH) as int,
                    );
                    let y = clamp_spec(
                        old(self).window.spec_y() + dy,
                        0,
                        room(old(self).screen_h, HEIGHT) as int,
                    );
                    &&& final(self).window.spec_x() == x
                    &&& final(self).window.spec_y() == y
                    &&& final(self).last_move_ns == now_ns
                    &&& t.moved_from == if x != old(self).window.spec_x() || y != old(
                        self,
                    ).window.spec_y() {
                        Some((old(self).window.spec_x(), old(self).window.spec_y()))
                    } else {
                        None::<(i32, i32)>
                    }
                } else {
                    final(self).window == old(self).window && final(self).last_move_ns == old(
                        self,
                    ).last_move_ns && t.moved_from is None
                },
                None => final(self).window == old(self).window && final(self).last_move_ns == old(
                    self,
                ).last_move_ns && t.moved_from is None,
            },
    {
        let mut moved_from = None;
        if let Some(dir) = self.held {
            if now_ns.wrapping_sub(self.last_move_ns) >= REPEAT_PERIOD_NS {
                let (dx, dy) = dir.step();
                let old = self.window.origin();
                self.window.translate(dx, dy, self.screen_w, self.screen_h);
                self.last_move_ns = now_ns;
                let now_at = self.window.origin();
                if now_at.0 != old.0 || now_at.1 != old.1 {
                    moved_from = Some(old);
                }
            }
        }
        let second_changed = time.seconds != self.shown_second;
        self.shown_second = time.seconds;
        ClockTick { moved_from, second_changed }
    }
}

} // verus!
