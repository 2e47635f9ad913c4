//! Single-line editor: accumulates printable characters and classifies each
//! key event into a [`LineAction`] the console can render.
use vstd::prelude::*;
use crate::api::{Key, KeyEvent};
use crate::chars::{ascii_graphic, is_ascii_graphic, string_from_chars};

verus! {

/// Maximum number of characters a command line can hold.
pub const MAX_LINE_CHARS: usize = 128;

/// What the console should draw for a key event.
#[derive(Clone, Copy, Debug, PartialEq, Eq, Structural)]
pub enum LineAction {
    /// A printable character was appended.
    Inserted,
    /// The last character was removed; the console should erase it.
    Erased,
    /// Enter: the line is complete and should be executed.
    Submitted,
    /// A key the editor does not handle (modifiers, arrows, releases).
    Ignored,
}

/// The line after `event` and how the console should respond: a printable
/// ASCII character or space is appended while the line has room, Enter
/// submits, Backspace drops the last character, everything else (including
/// releases) is ignored.
pub open spec fn handle_spec(line: Seq<char>, event: KeyEvent) -> (Seq<char>, LineAction) {
    match event {
        KeyEvent::Press(Key::Char(c)) => {
            if ascii_graphic(c) || c == ' ' {
                if line.len() < MAX_LINE_CHARS {
                    (line.push(c), LineAction::Inserted)
                } else {
                    (line, LineAction::Ignored)
                }
            } else {
                (line, LineAction::Ignored)
            }
        },
        KeyEvent::Press(Key::Enter) => (line, LineAction::Submitted),
        KeyEvent::Press(Key::Backspace) => {
            if line.len() == 0 {
                (line, LineAction::Ignored)
            } else {
                (line.drop_last(), LineAction::Erased)
            }
        },
        _ => (line, LineAction::Ignored),
    }
}

/// Backspace undoes a character just typed: the line is as it was, and the
/// console is told to erase it.
pub proof fn lemma_backspace_undoes_insert(line: Seq<char>, c: char)
    requires
        line.len() < MAX_LINE_CHARS,
        ascii_graphic(c) || c == ' ',
    ensures
        handle_spec(line, KeyEvent::Press(Key::Char(c))).1 == LineAction::Inserted,
        handle_spec(handle_spec(line, KeyEvent::Press(Key::Char(c))).0, KeyEvent::Press(Key::Backspace))
            == (line, LineAction::Erased),
{
    assert(line.push(c).drop_last() =~= line);
}

/// The editor only ever changes the end of the line, and keeps it within
/// capacity and printable: a key either appends one printable ASCII
/// character (reported as inserted), drops the last character (reported as
/// erased), or leaves the line as it is; Enter, and only Enter, submits.
pub proof fn lemma_edits_only_touch_the_end(line: Seq<char>, event: KeyEvent)
    requires
        line.len() <= MAX_LINE_CHARS,
    ensures
        ({
            let (next, action) = handle_spec(line, event);
            &&& next.len() <= MAX_LINE_CHARS
            &&& action == LineAction::Inserted <==> (next.len() == line.len() + 1 && next.drop_last()
                == line)
            &&& action == LineAction::Inserted ==> 0x20 <= (next.last() as u32) <= 0x7E
            &&& action == LineAction::Erased <==> (line.len() >= 1 && next == line.drop_last())
            &&& (action == LineAction::Submitted || action == LineAction::Ignored) ==> next == line
            &&& action == LineAction::Submitted <==> event == KeyEvent::Press(Key::Enter)
        }),
{
    let (next, action) = handle_spec(line, event);
    if let KeyEvent::Press(Key::Char(c)) = event {
        if next.len() == line.len() + 1 {
            assert(line.push(c).drop_last() =~= line);
        }
    }
    if action == LineAction::Erased {
        assert(line.drop_last().len() + 1 == line.len());
    }
}

/// A fixed-capacity line buffer with backspace support.
pub struct LineEditor {
    line: [char; MAX_LINE_CHARS],
    len: usize,
}

impl View for LineEditor {
    type V = Seq<char>;

    closed spec fn view(&self) -> Seq<char> {
        self.line@.subrange(0, self.len as int)
    }
}

impl LineEditor {
    /// The buffer length never exceeds its capacity.
    pub closed spec fn wf(&self) -> bool {
        self.len <= MAX_LINE_CHARS
    }

    pub fn new() -> (e: Self)
        ensures
            e.wf(),
            e@ == Seq::<char>::empty(),
    {
        LineEditor { line: [' '; 128], len: 0 }
    }

    /// Feeds one key event and reports how the console should respond.
    pub fn handle(&mut self, event: KeyEvent) -> (a: LineAction)
        requires
            old(self).wf(),
        ensures
            final(self).wf(),
            (final(self)@, a) == handle_spec(old(self)@, event),
            final(self)@.len() <= MAX_LINE_CHARS,
    {
        match event {
            KeyEvent::Press(Key::Char(c)) => {
                if is_ascii_graphic(c) || c == ' ' {
                    if self.len < MAX_LINE_CHARS {
                        let ghost before = self@;
                        self.line[self.len] = c;
                        self.len = self.len + 1;
                        assert(self@ =~= before.push(c));
                        LineAction::Inserted
                    } else {
                        LineAction::Ignored
                    }
                } else {
                    LineAction::Ignored
                }
            },
            KeyEvent::Press(Key::Enter) => LineAction::Submitted,
            KeyEvent::Press(Key::Backspace) => {
                if self.len == 0 {
                    LineAction::Ignored
                } else {
                    let ghost before = self@;
                    self.len = self.len - 1;
                    assert(self@ =~= before.drop_last());
                    LineAction::Erased
                }
            },
            _ => LineAction::Ignored,
        }
    }

    /// The characters typed so far.
    pub fn line(&self) -> (l: &[char])
        requires
            self.wf(),
        ensures
            l@ == self@,
    {
        &self.line[0..self.len]
    }

    /// Empties the buffer.
    pub fn clear(&mut self)
        ensures
            final(self).wf(),
            final(self)@ == Seq::<char>::empty(),
    {
        self.len = 0;
    }

    /// The line as text.
    pub fn to_text(&self) -> (s: String)
        requires
            self.wf(),
        ensures
            s@ == self@,
    {
        string_from_chars(self.line())
    }
}

} // verus!
