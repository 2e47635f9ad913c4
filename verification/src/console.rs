//! The shell console's decisions: what a command prints and what it does,
//! how the text grid fits the framebuffer, which cells a repaint covers, and
//! how the line being edited at the prompt is tracked between keystrokes.
//! The caller owns the text grid and the framebuffer and carries these
//! decisions out.
use vstd::prelude::*;
use crate::boot::Arch;
use crate::digits::{decimal_spec, digit_char, digit_spec, push_decimal};
use crate::shell::{Command, CommandSpec};

verus! {

/// The shell prompt.
pub const PROMPT: &'static str = "ferric-k$ ";

/// The greeting printed when the console comes up.
pub const GREETING: &'static str = "Hello from Ferric-K!\n";

/// The command list printed by `help`.
pub const HELP_TEXT: &'static str = "Ferric-K commands:\n  help     show this list\n  clear    clear the screen\n  echo     print the arguments\n  uptime   show time since boot\n  arch     show the CPU architecture\n  panic    panic the kernel (test hook)\n  clock    open the graphical clock window\n  gui      launch the Slint GUI\n  monitor  live hardware monitor\n  halt     power off the machine\n";

/// The message the kernel panics with when asked to by the shell.
pub const PANIC_MESSAGE: &'static str = "panic at user request (shell command)";

/// Widest grid the console keeps cells for.
pub const MAX_COLS: u32 = 256;

/// Tallest grid the console keeps cells for.
pub const MAX_ROWS: u32 = 128;

/// Cells the console keeps: [`MAX_COLS`] by [`MAX_ROWS`].
pub const CELL_COUNT: usize = 32768;

/// What the console does besides printing a command's text.
#[derive(Clone, Copy, Debug, PartialEq, Eq, Structural)]
pub enum ShellEffect {
    /// Nothing more.
    Nothing,
    /// Blank the screen and home the cursor.
    ClearScreen,
    /// Panic the kernel with [`PANIC_MESSAGE`].
    Panic,
    /// Stop the machine.
    Halt,
}

/// A command's answer: the text printed, then the effect carried out.
pub struct ShellReply {
    pub text: Vec<char>,
    pub effect: ShellEffect,
}

/// The three decimal digits of `ms` (below 1000), zero-padded.
pub open spec fn three_digits(ms: nat) -> Seq<char> {
    seq![digit_spec((ms / 100) as int), digit_spec(((ms / 10) % 10) as int), digit_spec((ms % 10) as int)]
}

/// `Uptime: S.mmms` for `ns` nanoseconds: whole seconds, then the
/// milliseconds of the current second in three digits.
pub open spec fn uptime_line(ns: u64) -> Seq<char> {
    "Uptime: "@ + decimal_spec((ns / 1_000_000_000) as nat) + seq!['.'] + three_digits(
        ((ns % 1_000_000_000) / 1_000_000) as nat,
    ) + seq!['s', '\n']
}

/// The name of `arch`.
pub open spec fn arch_text(arch: Arch) -> Seq<char> {
    match arch {
        Arch::X86_64 => "x86_64"@,
        Arch::Aarch64 => "aarch64"@,
    }
}

/// What the console prints for `cmd` at uptime `ns` on `arch`.
pub open spec fn reply_text(cmd: CommandSpec, ns: u64, arch: Arch) -> Seq<char> {
    match cmd {
        CommandSpec::Help => HELP_TEXT@,
        CommandSpec::Echo(rest) => rest + seq!['\n'],
        CommandSpec::Uptime => uptime_line(ns),
        CommandSpec::Arch => arch_text(arch) + seq!['\n'],
        CommandSpec::Halt => "HALT\n"@,
        CommandSpec::Unknown(name) => "unknown command '"@ + name + "'\n"@,
        _ => Seq::empty(),
    }
}

/// What the console does after printing for `cmd`.
pub open spec fn reply_effect(cmd: CommandSpec) -> ShellEffect {
    match cmd {
        CommandSpec::Clear => ShellEffect::ClearScreen,
        CommandSpec::Panic => ShellEffect::Panic,
        CommandSpec::Halt => ShellEffect::Halt,
        _ => ShellEffect::Nothing,
    }
}

/// Appends the characters of `s`.
pub fn push_str(out: &mut Vec<char>, s: &str)
    ensures
        final(out)@ == old(out)@ + s@,
{
    let n = s.unicode_len();
    let mut i: usize = 0;
    while i < n
        invariant
            n == s@.len(),
            0 <= i <= n,
            out@ == old(out)@ + s@.take(i as int),
        decreases n - i,
    {
        let c = s.get_char(i);
        out.push(c);
        assert(s@.take(i + 1) =~= s@.take(i as int).push(c));
        i = i + 1;
    }
    assert(s@.take(n as int) =~= s@);
}

/// Appends `chars`.
pub fn push_chars(out: &mut Vec<char>, chars: &[char])
    ensures
        final(out)@ == old(out)@ + chars@,
{
    let mut i: usize = 0;
    while i < chars.len()
        invariant
            0 <= i <= chars@.len(),
            out@ == old(out)@ + chars@.take(i as int),
        decreases chars@.len() - i,
    {
        out.push(chars[i]);
        assert(chars@.take(i + 1) =~= chars@.take(i as int).push(chars@[i as int]));
        i = i + 1;
    }
    assert(chars@.take(i as int) =~= chars@);
}

/// Appends the uptime line for `ns` nanoseconds.
pub fn push_uptime(out: &mut Vec<char>, ns: u64)
    ensures
        final(out)@ == old(out)@ + uptime_line(ns),
{
    let seconds = ns / 1_000_000_000;
    let millis = (ns % 1_000_000_000) / 1_000_000;
    push_str(out, "Uptime: ");
    push_decimal(out, seconds);
    out.push('.');
    let d0 = digit_char(millis / 100);
    let d1 = digit_char((millis / 10) % 10);
    let d2 = digit_char(millis % 10);
    out.push(d0);
    out.push(d1);
    out.push(d2);
    out.push('s');
    out.push('\n');
    assert(final(out)@ =~= old(out)@ + uptime_line(ns));
}

/// The console's answer to `cmd` at uptime `uptime_ns` on `arch`: `help`
/// lists the commands, `echo` prints its argument line, `uptime` the time
/// since boot to the millisecond, `arch` the architecture, `halt` prints
/// `HALT` and stops the machine, an unknown name is reported quoted;
/// `clear` and `panic` print nothing and act.
pub fn shell_reply(cmd: &Command, uptime_ns: u64, arch: Arch) -> (r: ShellReply)
    ensures
        r.text@ == reply_text(cmd@, uptime_ns, arch),
        r.effect == reply_effect(cmd@),
{
    let mut text: Vec<char> = Vec::new();
    let effect = match cmd {
        Command::Empty => ShellEffect::Nothing,
        Command::Help => {
            push_str(&mut text, HELP_TEXT);
            ShellEffect::Nothing
        },
        Command::Clear => ShellEffect::ClearScreen,
        Command::Echo(rest) => {
            push_chars(&mut text, rest);
            text.push('\n');
            ShellEffect::Nothing
        },
        Command::Uptime => {
            push_uptime(&mut text, uptime_ns);
            ShellEffect::Nothing
        },
        Command::Arch => {
            match arch {
                Arch::X86_64 => push_str(&mut text, "x86_64"),
                Arch::Aarch64 => push_str(&mut text, "aarch64"),
            }
            text.push('\n');
            ShellEffect::Nothing
        },
        Command::Panic => ShellEffect::Panic,
        Command::Halt => {
            push_str(&mut text, "HALT\n");
            ShellEffect::Halt
        },
        Command::Unknown(name) => {
            push_str(&mut text, "unknown command '");
            push_chars(&mut text, name);
            push_str(&mut text, "'\n");
            ShellEffect::Nothing
        },
    };
    proof {
        assert(text@ =~= reply_text(cmd@, uptime_ns, arch));
    }
    ShellReply { text, effect }
}

/// Columns and rows of whole glyph cells that fit a `fb_width` by
/// `fb_height` framebuffer with `font_width` by `font_height` glyphs.
pub fn grid_size(fb_width: u32, fb_height: u32, font_width: u32, font_height: u32) -> (r: (u32, u32))
    requires
        font_width > 0,
        font_height > 0,
    ensures
        r == (fb_width / font_width, fb_height / font_height),
{
    (fb_width / font_width, fb_height / font_height)
}

/// `v` lowered to `hi`.
pub open spec fn at_most(v: int, hi: int) -> int {
    if v < hi { v } else { hi }
}

/// The cells `(row0, col0)..=(row1, col1)` of a `cols` by `rows` grid of
/// `cell_w` by `cell_h` cells that the pixel rectangle at `(x, y)` of size
/// `w` by `h` touches; `None` for an empty grid or rectangle.
pub open spec fn touched_cells(
    x: u32,
    y: u32,
    w: u32,
    h: u32,
    cell_w: u32,
    cell_h: u32,
    cols: u32,
    rows: u32,
) -> Option<(u32, u32, u32, u32)> {
    if cols == 0 || rows == 0 || w == 0 || h == 0 {
        None
    } else {
        Some(
            (
                at_most((y / cell_h) as int, rows - 1) as u32,
                at_most((x / cell_w) as int, cols - 1) as u32,
                at_most((y + h - 1) / cell_h as int, rows - 1) as u32,
                at_most((x + w - 1) / cell_w as int, cols - 1) as u32,
            ),
        )
    }
}

/// The grid cells under a pixel rectangle, as [`touched_cells`]; the
/// console re-blits them after the rectangle was painted over.
pub fn repaint_cells(
    x: u32,
    y: u32,
    w: u32,
    h: u32,
    cell_w: u32,
    cell_h: u32,
    cols: u32,
    rows: u32,
) -> (r: Option<(u32, u32, u32, u32)>)
    requires
        cell_w > 0,
        cell_h > 0,
    ensures
        r == touched_cells(x, y, w, h, cell_w, cell_h, cols, rows),
{
    if cols == 0 || rows == 0 || w == 0 || h == 0 {
        return None;
    }
    let last_row = (rows - 1) as u64;
    let last_col = (cols - 1) as u64;
    let r0 = (y as u64) / (cell_h as u64);
    let c0 = (x as u64) / (cell_w as u64);
    let r1 = ((y as u64) + (h as u64) - 1) / (cell_h as u64);
    let c1 = ((x as u64) + (w as u64) - 1) / (cell_w as u64);
    let row0 = if r0 < last_row {
        r0
    } else {
        last_row
    };
    let col0 = if c0 < last_col {
        c0
    } else {
        last_col
    };
    let row1 = if r1 < last_row {
        r1
    } else {
        last_row
    };
    let col1 = if c1 < last_col {
        c1
    } else {
        last_col
    };
    Some((row0 as u32, col0 as u32, row1 as u32, col1 as u32))
}

/// The row-major cell range `[from, to]` to re-blit out of a request for
/// `[from, to]` on a grid of `total` cells: an end past the grid pulls both
/// ends onto its last cell; `None` when the range is then empty.
pub open spec fn span_to_render(from: usize, to: usize, total: usize) -> Option<(usize, usize)> {
    let (f, t) = if from >= total || to >= total {
        (at_most(from as int, total - 1), at_most(to as int, total - 1))
    } else {
        (from as int, to as int)
    };
    if f > t {
        None
    } else {
        Some((f as usize, t as usize))
    }
}

/// The cells to re-blit for a request `[from, to]`, as [`span_to_render`].
pub fn render_span(from: usize, to: usize, total: usize) -> (r: Option<(usize, usize)>)
    requires
        total > 0,
    ensures
        r == span_to_render(from, to, total),
        r matches Some((f, t)) ==> f <= t < total,
{
    let mut f = from;
    let mut t = to;
    if from >= total || to >= total {
        f = if from < total - 1 {
            from
        } else {
            total - 1
        };
        t = if to < total - 1 {
            to
        } else {
            total - 1
        };
    }
    if f > t {
        None
    } else {
        Some((f, t))
    }
}

/// Whether writing `c` at cursor `(row, col)` of a `cols` by `rows` text
/// grid scrolls it: a line feed, or an ordinary character filling the last
/// column, on the last row.
pub fn put_scrolls(row: u32, col: u32, cols: u32, rows: u32, c: char) -> (b: bool)
    ensures
        b == ((row + 1 >= rows) && (c == '\n' || (c != '\r' && c != '\t' && col + 1 >= cols))),
{
    (row as u64) + 1 >= (rows as u64) && (c == '\n' || (c != '\r' && c != '\t' && (col as u64) + 1
        >= (cols as u64)))
}

/// The line being edited at the prompt: where it starts on the grid and how
/// many cells it has drawn since.
#[derive(Clone, Copy, Debug, PartialEq, Eq, Structural)]
pub struct EditLine {
    pub row: u32,
    pub col: u32,
    pub cells: u32,
}

/// Which cells the console must re-blit after an edit.
#[derive(Clone, Copy, Debug, PartialEq, Eq, Structural)]
pub enum Repaint {
    /// The whole grid.
    Full,
    /// The row-major cell range `[from, to]`, clamped onto the grid.
    Cells { from: usize, to: usize },
}

/// Row-major grid index of the cell at `(row, col)`.
pub open spec fn grid_index(cols: u32, row: u32, col: u32) -> int {
    row as int * cols as int + col as int
}

/// An edit starting at the cursor `(row, col)`, nothing drawn yet.
pub fn begin_edit(row: u32, col: u32) -> (e: EditLine)
    ensures
        e == (EditLine { row, col, cells: 0 }),
{
    EditLine { row, col, cells: 0 }
}

/// The first grid index the edit `e` owns on a `cols`-wide grid.
pub fn edit_origin(e: &EditLine, cols: u32) -> (o: usize)
    requires
        grid_index(cols, e.row, e.col) <= usize::MAX,
    ensures
        o == grid_index(cols, e.row, e.col),
{
    (e.row as usize) * (cols as usize) + (e.col as usize)
}

/// The edit after the line was redrawn from its origin, ending with the
/// cursor at `(end_row, end_col)` after `scrolled` scrolls: it now owns the
/// cells up to the cursor, its start moved up with every scroll, and the
/// console repaints the whole grid after a scroll, else the cells the line
/// covered before or covers now.
pub open spec fn edit_after(e: EditLine, cols: u32, end_row: u32, end_col: u32, scrolled: u32) -> (
    EditLine,
    Repaint,
) {
    let origin = grid_index(cols, e.row, e.col);
    let end = grid_index(cols, end_row, end_col);
    let cells = if end > origin { end - origin } else { 0 };
    let old_end = origin + e.cells;
    let new_end = origin + cells;
    let last = if old_end > new_end { old_end } else { new_end };
    if scrolled > 0 {
        (
            EditLine {
                row: if e.row > scrolled { (e.row - scrolled) as u32 } else { 0 },
                cells: cells as u32,
                ..e
            },
            Repaint::Full,
        )
    } else {
        (
            EditLine { cells: cells as u32, ..e },
            Repaint::Cells { from: origin as usize, to: if last > 0 { (last - 1) as usize } else { 0 } },
        )
    }
}

/// Updates the edit after a redraw, as [`edit_after`].
pub fn finish_edit(e: &EditLine, cols: u32, end_row: u32, end_col: u32, scrolled: u32) -> (r: (
    EditLine,
    Repaint,
))
    requires
        grid_index(cols, e.row, e.col) + e.cells <= u32::MAX,
        grid_index(cols, end_row, end_col) <= u32::MAX,
    ensures
        r == edit_after(*e, cols, end_row, end_col, scrolled),
{
    let origin = (e.row as u64) * (cols as u64) + (e.col as u64);
    let end = (end_row as u64) * (cols as u64) + (end_col as u64);
    proof {
        assert((e.row as u64) * (cols as u64) == e.row as int * cols as int) by (nonlinear_arith)
            requires
                e.row as int * cols as int + e.col as int <= u32::MAX,
        ;
        assert((end_row as u64) * (cols as u64) == end_row as int * cols as int) by (nonlinear_arith)
            requires
                end_row as int * cols as int + end_col as int <= u32::MAX,
        ;
    }
    let cells = if end > origin {
        end - origin
    } else {
        0
    };
    let old_end = origin + (e.cells as u64);
    let new_end = origin + cells;
    let last = if old_end > new_end {
        old_end
    } else {
        new_end
    };
    if scrolled > 0 {
        let row = if e.row > scrolled {
            e.row - scrolled
        } else {
            0
        };
        (EditLine { row, col: e.col, cells: cells as u32 }, Repaint::Full)
    } else {
        let to = if last > 0 {
            last - 1
        } else {
            0
        };
        (EditLine { row: e.row, col: e.col, cells: cells as u32 }, Repaint::Cells {
            from: origin as usize,
            to: to as usize,
        })
    }
}

} // verus!
