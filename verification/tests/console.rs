use ferric::boot::Arch;
use ferric::console::{
    begin_edit, edit_origin, finish_edit, grid_size, put_scrolls, render_span, repaint_cells, shell_reply,
    EditLine, Repaint, ShellEffect, HELP_TEXT,
};
use ferric::shell::parse_command;

fn reply(line: &str, uptime_ns: u64, arch: Arch) -> (String, ShellEffect) {
    let chars: Vec<char> = line.chars().collect();
    let r = shell_reply(&parse_command(&chars), uptime_ns, arch);
    (r.text.iter().collect(), r.effect)
}

#[test]
fn commands_print_their_answers() {
    assert_eq!(reply("", 0, Arch::X86_64), (String::new(), ShellEffect::Nothing));
    assert_eq!(reply("help", 0, Arch::X86_64), (HELP_TEXT.to_string(), ShellEffect::Nothing));
    assert!(HELP_TEXT.starts_with("Ferric-K commands:\n  help     show this list\n"));
    assert_eq!(reply("  echo   hello world  ", 0, Arch::X86_64).0, "hello world\n");
    assert_eq!(reply("arch", 0, Arch::X86_64).0, "x86_64\n");
    assert_eq!(reply("arch", 0, Arch::Aarch64).0, "aarch64\n");
    assert_eq!(reply("xyz now", 0, Arch::X86_64).0, "unknown command 'xyz'\n");
}

#[test]
fn uptime_prints_seconds_and_padded_millis() {
    assert_eq!(reply("uptime", 12_034_999_999, Arch::X86_64).0, "Uptime: 12.034s\n");
    assert_eq!(reply("uptime", 0, Arch::X86_64).0, "Uptime: 0.000s\n");
    assert_eq!(reply("uptime", 5_999_000_000, Arch::Aarch64).0, "Uptime: 5.999s\n");
}

#[test]
fn clear_panic_and_halt_act() {
    assert_eq!(reply("clear", 0, Arch::X86_64), (String::new(), ShellEffect::ClearScreen));
    assert_eq!(reply("panic", 0, Arch::X86_64), (String::new(), ShellEffect::Panic));
    assert_eq!(reply("HALT", 0, Arch::X86_64), ("HALT\n".to_string(), ShellEffect::Halt));
}

#[test]
fn grid_fits_whole_glyphs() {
    assert_eq!(grid_size(1024, 768, 8, 16), (128, 48));
    assert_eq!(grid_size(7, 15, 8, 16), (0, 0));
}

#[test]
fn repaint_covers_every_touched_cell() {
    assert_eq!(repaint_cells(50, 30, 220, 180, 8, 16, 128, 48), Some((1, 6, 13, 33)));
    assert_eq!(repaint_cells(1000, 700, 220, 180, 8, 16, 128, 48), Some((43, 125, 47, 127)));
    assert_eq!(repaint_cells(0, 0, 0, 10, 8, 16, 128, 48), None);
    assert_eq!(repaint_cells(0, 0, 10, 10, 8, 16, 0, 48), None);
}

#[test]
fn render_spans_are_clamped_onto_the_grid() {
    assert_eq!(render_span(3, 9, 100), Some((3, 9)));
    assert_eq!(render_span(95, 120, 100), Some((95, 99)));
    assert_eq!(render_span(150, 160, 100), Some((99, 99)));
    assert_eq!(render_span(9, 3, 100), None);
}

#[test]
fn scrolls_happen_only_on_the_last_row() {
    assert!(put_scrolls(47, 3, 128, 48, '\n'));
    assert!(!put_scrolls(46, 3, 128, 48, '\n'));
    assert!(put_scrolls(47, 127, 128, 48, 'x'));
    assert!(!put_scrolls(47, 126, 128, 48, 'x'));
    assert!(!put_scrolls(47, 127, 128, 48, '\t'));
}

#[test]
fn edits_track_their_cells_and_repaint_range() {
    let e = begin_edit(2, 10);
    assert_eq!(e, EditLine { row: 2, col: 10, cells: 0 });
    assert_eq!(edit_origin(&e, 80), 170);
    let (e, r) = finish_edit(&e, 80, 2, 15, 0);
    assert_eq!(e.cells, 5);
    assert_eq!(r, Repaint::Cells { from: 170, to: 174 });
    let (e, r) = finish_edit(&e, 80, 2, 13, 0);
    assert_eq!(e.cells, 3);
    assert_eq!(r, Repaint::Cells { from: 170, to: 174 });
    let (e, r) = finish_edit(&e, 80, 3, 0, 1);
    assert_eq!((e.row, e.cells), (1, 70));
    assert_eq!(r, Repaint::Full);
}
