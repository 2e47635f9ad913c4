use std::cell::RefCell;

use ferric::log::{
    current_log_level, dispatch, reset_log_level, set_log_level, Level, LogState, Logger,
    NoOpLogger,
};

#[test]
fn log_level_ordering() {
    assert!(Level::Info < Level::Warn);
    assert!(Level::Warn < Level::Error);
    assert!(Level::Info < Level::Error);
    assert!(Level::Info.rank() < Level::Warn.rank());
    assert!(Level::Warn.rank() < Level::Error.rank());
}

#[test]
fn level_display() {
    assert_eq!(Level::Info.to_text(), "INFO");
    assert_eq!(Level::Warn.to_text(), "WARN");
    assert_eq!(Level::Error.to_text(), "ERROR");
}

#[test]
fn level_from_u8_round_trips() {
    assert_eq!(Level::from_u8(0), Some(Level::Info));
    assert_eq!(Level::from_u8(1), Some(Level::Warn));
    assert_eq!(Level::from_u8(2), Some(Level::Error));
    assert_eq!(Level::from_u8(3), None);
    assert_eq!(Level::from_u8(255), None);
}

#[test]
fn noop_logger_does_not_panic() {
    let logger = NoOpLogger;
    logger.log(Level::Info, "test");
    logger.log(Level::Warn, "test 42");
    logger.log(Level::Error, "test");
}

/// Records every line handed to it.
struct Collector {
    events: RefCell<Vec<(Level, String)>>,
}

impl Collector {
    fn new() -> Self {
        Collector { events: RefCell::new(Vec::new()) }
    }
}

impl Logger for Collector {
    fn log(&self, level: Level, message: &str) {
        self.events.borrow_mut().push((level, message.to_string()));
    }
}

#[test]
fn info_message_is_delivered() {
    let state = LogState::new();
    let logger = Collector::new();
    dispatch(&state, &logger, Level::Info, "hello world");
    let events = logger.events.borrow();
    assert_eq!(events.len(), 1);
    assert_eq!(events[0], (Level::Info, "hello world".to_string()));
}

#[test]
fn warn_message_is_delivered() {
    let state = LogState::new();
    let logger = Collector::new();
    dispatch(&state, &logger, Level::Warn, &format!("something {}", "off"));
    let events = logger.events.borrow();
    assert_eq!(events.len(), 1);
    assert_eq!(events[0], (Level::Warn, "something off".to_string()));
}

#[test]
fn error_message_is_delivered() {
    let state = LogState::new();
    let logger = Collector::new();
    dispatch(&state, &logger, Level::Error, &format!("bad {}", 42));
    let events = logger.events.borrow();
    assert_eq!(events.len(), 1);
    assert_eq!(events[0], (Level::Error, "bad 42".to_string()));
}

#[test]
fn info_filtered_at_warn_level() {
    let mut state = LogState::new();
    set_log_level(&mut state, Level::Warn);
    let logger = Collector::new();
    assert!(!dispatch(&state, &logger, Level::Info, "dropped"));
    assert!(dispatch(&state, &logger, Level::Warn, "kept"));
    let events = logger.events.borrow();
    assert_eq!(events.len(), 1);
    assert_eq!(events[0], (Level::Warn, "kept".to_string()));
}

#[test]
fn info_and_warn_filtered_at_error_level() {
    let mut state = LogState::new();
    set_log_level(&mut state, Level::Error);
    let logger = Collector::new();
    dispatch(&state, &logger, Level::Info, "dropped");
    dispatch(&state, &logger, Level::Warn, "dropped");
    dispatch(&state, &logger, Level::Error, "kept");
    let events = logger.events.borrow();
    assert_eq!(events.len(), 1);
    assert_eq!(events[0], (Level::Error, "kept".to_string()));
}

#[test]
fn all_levels_pass_at_info() {
    let mut state = LogState::new();
    set_log_level(&mut state, Level::Info);
    let logger = Collector::new();
    dispatch(&state, &logger, Level::Info, "i");
    dispatch(&state, &logger, Level::Warn, "w");
    dispatch(&state, &logger, Level::Error, "e");
    let events = logger.events.borrow();
    assert_eq!(events.len(), 3);
    assert_eq!(events[0].0, Level::Info);
    assert_eq!(events[1].0, Level::Warn);
    assert_eq!(events[2].0, Level::Error);
}

#[test]
fn set_log_level_round_trips() {
    let mut state = LogState::new();
    for level in [Level::Info, Level::Warn, Level::Error] {
        set_log_level(&mut state, level);
        assert_eq!(current_log_level(&state), level);
    }
}

#[test]
fn reset_log_level_restores_info() {
    let mut state = LogState::new();
    set_log_level(&mut state, Level::Error);
    assert_eq!(current_log_level(&state), Level::Error);
    reset_log_level(&mut state);
    assert_eq!(current_log_level(&state), Level::Info);
}

#[test]
fn invalid_log_level_value_falls_back_to_info() {
    let mut state = LogState::new();
    state.store_raw(255);
    assert_eq!(current_log_level(&state), Level::Info);
}

#[test]
fn multiple_messages_in_sequence() {
    let state = LogState::new();
    let logger = Collector::new();
    dispatch(&state, &logger, Level::Info, "first");
    dispatch(&state, &logger, Level::Warn, "second");
    dispatch(&state, &logger, Level::Error, "third");
    let events = logger.events.borrow();
    assert_eq!(events.len(), 3);
    assert_eq!(events[0].1, "first");
    assert_eq!(events[1].1, "second");
    assert_eq!(events[2].1, "third");
}

#[test]
fn format_args_are_evaluated_lazily_when_filtered() {
    let mut state = LogState::new();
    set_log_level(&mut state, Level::Error);
    let logger = Collector::new();
    assert!(!dispatch(&state, &logger, Level::Info, &format!("val={}", 1 + 1)));
    assert_eq!(logger.events.borrow().len(), 0);
}
