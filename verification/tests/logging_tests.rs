use onca::logging::{log_header, LogCategory, LogLevel, LogLocation, LoggerState, CACHE_FLUSH_LIMIT, MAX_WRITERS};

#[test]
fn log_levels_filter_by_rank() {
    assert_eq!(LogLevel::Severe.rank(), 0);
    assert_eq!(LogLevel::Debug.rank(), 5);
    assert!(LogLevel::Warning.is_logged_at(LogLevel::Info.rank()));
    assert!(LogLevel::Info.is_logged_at(LogLevel::Info.rank()));
    assert!(!LogLevel::Verbose.is_logged_at(LogLevel::Info.rank()));
    assert!(LogLevel::Severe.is_logged_at(0));
    assert!(!LogLevel::Error.is_logged_at(0));
}

#[test]
fn log_level_labels_and_locations() {
    assert_eq!(LogLevel::Error.label(), "\x1B[91m[ERROR  ]\x1B[0m");
    assert_eq!(LogLevel::Severe.label(), "\x1B[1m\x1B[41m\x1B[30m[SEVERE ]\x1B[0m");
    assert!(LogLevel::Severe.shows_location());
    assert!(LogLevel::Error.shows_location());
    assert!(LogLevel::Debug.shows_location());
    assert!(!LogLevel::Warning.shows_location());
    assert!(!LogLevel::Info.shows_location());
    assert!(!LogLevel::Verbose.shows_location());
}

#[test]
fn log_category_display() {
    assert_eq!(LogCategory::new("cat").to_string(), "cat");
    assert_eq!(LogCategory::new_with_sub("input", "hid").to_string(), "input(hid)");
}

#[test]
fn log_location_fields() {
    let loc = LogLocation::new("lib.rs", 42, "main", 7);
    assert_eq!(loc.file(), "lib.rs");
    assert_eq!(loc.line(), 42);
    assert_eq!(loc.function(), "main");
    assert_eq!(loc.timestamp(), 7);
}

#[test]
fn logger_writer_slots() {
    let mut state: LoggerState<u32> = LoggerState::new();
    for i in 0..MAX_WRITERS {
        assert_eq!(state.add_writer(i as u32 + 100), Ok(i));
    }
    assert_eq!(state.add_writer(7), Err(7));
    assert_eq!(state.remove_writer(3), Some(103));
    assert_eq!(state.remove_writer(3), None);
    assert_eq!(state.add_writer(9), Ok(3));
    assert_eq!(state.writers_mut()[3], Some(9));
    assert_eq!(state.remove_writer(0), Some(100));
    assert_eq!(state.add_writer(11), Ok(0));
}

#[test]
fn logger_cache_flushes() {
    let mut state: LoggerState<u32> = LoggerState::new();
    assert!(state.log_to_console());
    assert_eq!(state.take_pending(), None);
    assert!(!state.write_message("hello "));
    assert!(!state.write_message("world"));
    assert_eq!(state.take_pending(), Some(String::from("hello world")));
    assert_eq!(state.take_pending(), Some(String::new()));
    let long = "x".repeat(CACHE_FLUSH_LIMIT);
    assert!(!state.write_message(&long));
    assert!(state.write_message("y"));
    assert!(state.flush_due());
    state.take_pending();
    assert!(!state.flush_due());
    state.set_always_flush(true);
    assert!(state.write_message("z"));
    state.set_log_to_console(false);
    assert!(!state.log_to_console());
}

#[test]
fn log_headers() {
    let cat = LogCategory::new_with_sub("input", "hid");
    let loc = LogLocation::new("lib.rs", 42, "main", 7);
    assert_eq!(
        log_header(&cat, LogLevel::Error, &loc),
        "\x1B[38m7\x1B[0m \x1B[91m[ERROR  ]\x1B[0m [input(hid)] (lib.rs:42: main)"
    );
    assert_eq!(
        log_header(&LogCategory::new("cat"), LogLevel::Info, &loc),
        "\x1B[38m7\x1B[0m \x1B[37m[INFO   ]\x1B[0m [cat] "
    );
}
