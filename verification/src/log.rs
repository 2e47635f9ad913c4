//! Logging: severity levels, the sink that receives log lines, and the
//! runtime threshold below which messages are discarded.
use core::cmp::Ordering;
use vstd::prelude::*;
use vstd::std_specs::cmp::PartialOrdSpecImpl;

verus! {

/// Log severity levels ordered from least to most severe.
#[derive(Clone, Copy, Debug, PartialEq, Eq, Ord, Hash, Structural)]
pub enum Level {
    Info,
    Warn,
    Error,
}

/// A level's place in the severity order, also its stored byte.
pub open spec fn level_rank(level: Level) -> u8 {
    match level {
        Level::Info => 0,
        Level::Warn => 1,
        Level::Error => 2,
    }
}

/// How two levels compare: by their place in the severity order.
pub open spec fn level_order(a: Level, b: Level) -> Option<Ordering> {
    if level_rank(a) < level_rank(b) {
        Some(Ordering::Less)
    } else if level_rank(a) == level_rank(b) {
        Some(Ordering::Equal)
    } else {
        Some(Ordering::Greater)
    }
}

impl PartialOrd for Level {
    fn partial_cmp(&self, other: &Level) -> (r: Option<Ordering>) {
        let a = self.rank();
        let b = other.rank();
        if a < b {
            Some(Ordering::Less)
        } else if a == b {
            Some(Ordering::Equal)
        } else {
            Some(Ordering::Greater)
        }
    }
}

impl PartialOrdSpecImpl for Level {
    open spec fn obeys_partial_cmp_spec() -> bool {
        true
    }

    open spec fn partial_cmp_spec(&self, other: &Level) -> Option<Ordering> {
        level_order(*self, *other)
    }
}

/// Levels compare by severity: one level is below another exactly when its
/// rank is lower, and two levels are equal in the order only when they are
/// the same level.
pub proof fn lemma_level_order_follows_rank(a: Level, b: Level)
    ensures
        (level_order(a, b) == Some(Ordering::Less)) <==> level_rank(a) < level_rank(b),
        (level_order(a, b) == Some(Ordering::Equal)) <==> a == b,
        (level_order(a, b) == Some(Ordering::Greater)) <==> level_rank(b) < level_rank(a),
{
}

/// The level a stored byte stands for.
pub open spec fn level_from_byte(v: u8) -> Option<Level> {
    if v == 0 {
        Some(Level::Info)
    } else if v == 1 {
        Some(Level::Warn)
    } else if v == 2 {
        Some(Level::Error)
    } else {
        None
    }
}

/// The most severe level that is ever compiled in.
pub const MAX_LEVEL: Level = Level::Error;

impl Level {
    /// The level stored as byte `v`; `None` for any other byte.
    pub fn from_u8(v: u8) -> (l: Option<Self>)
        ensures
            l == level_from_byte(v),
    {
        match v {
            0 => Some(Level::Info),
            1 => Some(Level::Warn),
            2 => Some(Level::Error),
            _ => None,
        }
    }

    /// This level's stored byte.
    pub fn rank(self) -> (r: u8)
        ensures
            r == level_rank(self),
    {
        match self {
            Level::Info => 0,
            Level::Warn => 1,
            Level::Error => 2,
        }
    }

    /// The level's display name.
    pub fn label(self) -> (s: &'static str)
        ensures
            s@ == (match self {
                Level::Info => "INFO"@,
                Level::Warn => "WARN"@,
                Level::Error => "ERROR"@,
            }),
    {
        match self {
            Level::Info => "INFO",
            Level::Warn => "WARN",
            Level::Error => "ERROR",
        }
    }

    /// The level's display name as an owned string.
    pub fn to_text(self) -> (s: String)
        ensures
            s@ == (match self {
                Level::Info => "INFO"@,
                Level::Warn => "WARN"@,
                Level::Error => "ERROR"@,
            }),
    {
        let label = self.label();
        label.to_string()
    }
}

/// Every level's byte reads back as that level.
pub proof fn lemma_level_round_trip(level: Level)
    ensures
        level_from_byte(level_rank(level)) == Some(level),
{
}

/// A sink that receives formatted log lines.
pub trait Logger {
    fn log(&self, level: Level, message: &str);
}

/// Logger that discards everything; used before a real one is installed.
pub struct NoOpLogger;

impl Logger for NoOpLogger {
    fn log(&self, level: Level, message: &str) {
    }
}

/// The runtime log threshold, kept as the byte of a level.
pub struct LogState {
    raw: u8,
}

impl LogState {
    pub closed spec fn spec_raw(&self) -> u8 {
        self.raw
    }

    /// The threshold as it starts: `Info`, passing everything.
    pub fn new() -> (s: Self)
        ensures
            s.spec_raw() == level_rank(Level::Info),
    {
        LogState { raw: 0 }
    }

    /// Stores a raw byte as the threshold, as a stray write would.
    pub fn store_raw(&mut self, raw: u8)
        ensures
            final(self).spec_raw() == raw,
    {
        self.raw = raw;
    }
}

/// The threshold a state holds: its level, or `Info` for a byte that names
/// none.
pub open spec fn threshold(state: &LogState) -> Level {
    match level_from_byte(state.spec_raw()) {
        Some(l) => l,
        None => Level::Info,
    }
}

/// Sets the runtime log level.
pub fn set_log_level(state: &mut LogState, level: Level)
    ensures
        final(state).spec_raw() == level_rank(level),
        threshold(final(state)) == level,
{
    state.raw = level.rank();
}

/// The current runtime log level; `Info` when the stored byte names none.
pub fn current_log_level(state: &LogState) -> (l: Level)
    ensures
        l == threshold(state),
{
    match Level::from_u8(state.raw) {
        Some(l) => l,
        None => Level::Info,
    }
}

/// Resets the log level to `Info`.
pub fn reset_log_level(state: &mut LogState)
    ensures
        threshold(final(state)) == Level::Info,
{
    set_log_level(state, Level::Info);
}

/// A message at `level` passes the threshold when it is at least as severe.
pub open spec fn passes(level: Level, state: &LogState) -> bool {
    level_rank(level) >= level_rank(threshold(state))
}

/// Hands `message` to `logger` when `level` passes the threshold; returns
/// whether it did.
pub fn dispatch<L: Logger>(state: &LogState, logger: &L, level: Level, message: &str) -> (sent: bool)
    ensures
        sent == passes(level, state),
{
    let current = current_log_level(state);
    if level.rank() >= current.rank() {
        logger.log(level, message);
        true
    } else {
        false
    }
}

} // verus!
