//! Parses a finished command line into a [`Command`] the kernel dispatches.
use vstd::prelude::*;
use crate::chars::{ascii_lower, is_whitespace, to_ascii_lowercase, white_space};

verus! {

/// A parsed command line.
#[derive(Clone, Copy, Debug, PartialEq, Eq)]
pub enum Command<'a> {
    /// A blank (whitespace-only) line; the shell just prints a fresh prompt.
    Empty,
    /// `help`: list the built-in commands.
    Help,
    /// `clear`: blank the screen and re-home the cursor.
    Clear,
    /// `echo <args>`: print everything after the command name.
    Echo(&'a [char]),
    /// `uptime`: print seconds since boot.
    Uptime,
    /// `arch`: print the CPU architecture.
    Arch,
    /// `panic`: crash the kernel on purpose (manual test hook).
    Panic,
    /// `halt`: power the machine off in the emulator.
    Halt,
    /// Anything else; carries the command name as typed (without arguments).
    Unknown(&'a [char]),
}

/// The meaning of a command line.
pub ghost enum CommandSpec {
    Empty,
    Help,
    Clear,
    Echo(Seq<char>),
    Uptime,
    Arch,
    Panic,
    Halt,
    Unknown(Seq<char>),
}

impl<'a> View for Command<'a> {
    type V = CommandSpec;

    open spec fn view(&self) -> CommandSpec {
        match *self {
            Command::Empty => CommandSpec::Empty,
            Command::Help => CommandSpec::Help,
            Command::Clear => CommandSpec::Clear,
            Command::Echo(a) => CommandSpec::Echo(a@),
            Command::Uptime => CommandSpec::Uptime,
            Command::Arch => CommandSpec::Arch,
            Command::Panic => CommandSpec::Panic,
            Command::Halt => CommandSpec::Halt,
            Command::Unknown(n) => CommandSpec::Unknown(n@),
        }
    }
}

/// Index of the first non-white-space character at or after `i`.
pub open spec fn skip_front(s: Seq<char>, i: int) -> int
    decreases s.len() - i,
{
    if 0 <= i < s.len() && white_space(s[i]) {
        skip_front(s, i + 1)
    } else {
        i
    }
}

/// End of `s[lo..j]` with trailing white space dropped.
pub open spec fn skip_back(s: Seq<char>, lo: int, j: int) -> int
    decreases j - lo,
{
    if lo < j && white_space(s[j - 1]) {
        skip_back(s, lo, j - 1)
    } else {
        j
    }
}

/// `s` without leading and trailing white space.
pub open spec fn trim_spec(s: Seq<char>) -> Seq<char> {
    let a = skip_front(s, 0);
    s.subrange(a, skip_back(s, a, s.len() as int))
}

/// Index of the first white-space character at or after `i`, or the length.
pub open spec fn first_space(s: Seq<char>, i: int) -> int
    decreases s.len() - i,
{
    if 0 <= i < s.len() && !white_space(s[i]) {
        first_space(s, i + 1)
    } else {
        i
    }
}

/// `token` spells `name` ignoring ASCII case.
pub open spec fn names_match(token: Seq<char>, name: Seq<char>) -> bool {
    token.len() == name.len() && forall|i: int| 0 <= i < token.len() ==> ascii_lower(token[i]) == name[i]
}

/// The command a line denotes: blank lines are empty; otherwise the first
/// white-space separated token names the command (ASCII case-insensitive)
/// and the trimmed remainder is `echo`'s argument.
pub open spec fn parse_spec(line: Seq<char>) -> CommandSpec {
    let t = trim_spec(line);
    if t.len() == 0 {
        CommandSpec::Empty
    } else {
        let h = first_space(t, 0);
        let name = t.subrange(0, h);
        let rest = trim_spec(t.subrange(h, t.len() as int));
        if names_match(name, seq!['h', 'e', 'l', 'p']) {
            CommandSpec::Help
        } else if names_match(name, seq!['c', 'l', 'e', 'a', 'r']) {
            CommandSpec::Clear
        } else if names_match(name, seq!['e', 'c', 'h', 'o']) {
            CommandSpec::Echo(rest)
        } else if names_match(name, seq!['u', 'p', 't', 'i', 'm', 'e']) {
            CommandSpec::Uptime
        } else if names_match(name, seq!['a', 'r', 'c', 'h']) {
            CommandSpec::Arch
        } else if names_match(name, seq!['p', 'a', 'n', 'i', 'c']) {
            CommandSpec::Panic
        } else if names_match(name, seq!['h', 'a', 'l', 't']) {
            CommandSpec::Halt
        } else {
            CommandSpec::Unknown(name)
        }
    }
}

proof fn lemma_skip_front_bounds(s: Seq<char>, i: int)
    requires
        0 <= i <= s.len(),
    ensures
        i <= skip_front(s, i) <= s.len(),
    decreases s.len() - i,
{
    if i < s.len() && white_space(s[i]) {
        lemma_skip_front_bounds(s, i + 1);
    }
}

proof fn lemma_skip_back_bounds(s: Seq<char>, lo: int, j: int)
    requires
        lo <= j,
    ensures
        lo <= skip_back(s, lo, j) <= j,
    decreases j - lo,
{
    if lo < j && white_space(s[j - 1]) {
        lemma_skip_back_bounds(s, lo, j - 1);
    }
}

proof fn lemma_first_space_bounds(s: Seq<char>, i: int)
    requires
        0 <= i <= s.len(),
    ensures
        i <= first_space(s, i) <= s.len(),
    decreases s.len() - i,
{
    if i < s.len() && !white_space(s[i]) {
        lemma_first_space_bounds(s, i + 1);
    }
}

/// Parses `line`: a leading token names the command (ASCII
/// case-insensitive); everything after the first white-space run is the
/// `echo` argument.
pub fn parse_command(line: &[char]) -> (c: Command<'_>)
    ensures
        c@ == parse_spec(line@),
{
    let line = trim(line);
    if line.len() == 0 {
        return Command::Empty;
    }
    let ghost t = line@;
    let mut head_len: usize = 0;
    while head_len < line.len() && !is_whitespace(line[head_len])
        invariant
            t == line@,
            head_len <= t.len(),
            first_space(t, 0) == first_space(t, head_len as int),
        decreases t.len() - head_len,
    {
        head_len = head_len + 1;
    }
    let name = &line[0..head_len];
    let rest = trim(&line[head_len..line.len()]);
    if is_name(name, &['h', 'e', 'l', 'p']) {
        Command::Help
    } else if is_name(name, &['c', 'l', 'e', 'a', 'r']) {
        Command::Clear
    } else if is_name(name, &['e', 'c', 'h', 'o']) {
        Command::Echo(rest)
    } else if is_name(name, &['u', 'p', 't', 'i', 'm', 'e']) {
        Command::Uptime
    } else if is_name(name, &['a', 'r', 'c', 'h']) {
        Command::Arch
    } else if is_name(name, &['p', 'a', 'n', 'i', 'c']) {
        Command::Panic
    } else if is_name(name, &['h', 'a', 'l', 't']) {
        Command::Halt
    } else {
        Command::Unknown(name)
    }
}

fn is_name(token: &[char], name: &[char]) -> (b: bool)
    ensures
        b == names_match(token@, name@),
{
    if token.len() != name.len() {
        return false;
    }
    let mut i: usize = 0;
    while i < token.len()
        invariant
            token@.len() == name@.len(),
            i <= token@.len(),
            forall|j: int| 0 <= j < i ==> ascii_lower(token@[j]) == name@[j],
        decreases token@.len() - i,
    {
        if to_ascii_lowercase(token[i]) != name[i] {
            return false;
        }
        i = i + 1;
    }
    true
}

fn trim(slice: &[char]) -> (t: &[char])
    ensures
        t@ == trim_spec(slice@),
{
    let ghost s = slice@;
    let n = slice.len();
    let mut a: usize = 0;
    while a < n && is_whitespace(slice[a])
        invariant
            s == slice@,
            n == s.len(),
            a <= n,
            skip_front(s, 0) == skip_front(s, a as int),
        decreases n - a,
    {
        a = a + 1;
    }
    let mut b: usize = n;
    while b > a && is_whitespace(slice[b - 1])
        invariant
            s == slice@,
            n == s.len(),
            a <= b <= n,
            a == skip_front(s, 0),
            skip_back(s, a as int, n as int) == skip_back(s, a as int, b as int),
        decreases b - a,
    {
        b = b - 1;
    }
    &slice[a..b]
}

} // verus!
