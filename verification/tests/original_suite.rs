//! The library's original behaviour, exercised end to end: level parsing,
//! listener notification, traceback generation and the plain logging calls.

use std::sync::Arc;

use spin::Mutex;

use breadcrumbs::{
    get_logs_traceback, init, init_with_listener, log, Log, LogListener, LogLevel, LogStore,
    SilentListener,
};

// Test the LogLevel enum
#[test]
fn test_log_level_enum() {
    assert_eq!(LogLevel::from_str("Verbose"), LogLevel::Verbose);
    assert_eq!(LogLevel::from_str("Info"), LogLevel::Info);
    assert_eq!(LogLevel::from_str("Warn"), LogLevel::Warn);
    assert_eq!(LogLevel::from_str("Error"), LogLevel::Error);
    assert_eq!(LogLevel::from_str("Critical"), LogLevel::Critical);
}

// Test Log and LogListener
struct MockLogListener {
    received_log: Option<Log>,
}

impl MockLogListener {
    fn new() -> Self {
        MockLogListener { received_log: None }
    }
}

impl LogListener for MockLogListener {
    fn on_log(&mut self, log: Log) {
        self.received_log = Some(log);
    }
}

// Wrapper struct that implements LogListener for Arc<Mutex<MockLogListener>>
struct MockLogListenerWrapper(Arc<Mutex<MockLogListener>>);

impl LogListener for MockLogListenerWrapper {
    fn on_log(&mut self, log: Log) {
        self.0.lock().on_log(log);
    }
}

#[test]
fn test_log_creation_and_handling() {
    let mock_listener = Arc::new(Mutex::new(MockLogListener::new()));
    let mock_listener_wrapper = MockLogListenerWrapper(mock_listener.clone());
    let mut store: LogStore<MockLogListenerWrapper> = LogStore::new();
    init_with_listener(&mut store, mock_listener_wrapper);

    log(
        &mut store,
        Some(LogLevel::Info),
        Some("test_channel".to_string()),
        "Test log message".to_string(),
    );

    let received_log = mock_listener
        .lock()
        .received_log
        .clone()
        .expect("Log not received by listener");
    assert_eq!(received_log.level, LogLevel::Info);
    assert_eq!(received_log.channel, "test_channel");
    assert_eq!(received_log.message, "Test log message");
}

// Test traceback generation
#[test]
fn test_traceback_generation() {
    let mut store: LogStore<SilentListener> = LogStore::new();
    log(
        &mut store,
        Some(LogLevel::Info),
        Some("channel1".to_string()),
        "Log 1".to_string(),
    );
    log(
        &mut store,
        Some(LogLevel::Warn),
        Some("channel2".to_string()),
        "Log 2".to_string(),
    );
    log(
        &mut store,
        Some(LogLevel::Error),
        Some("channel1".to_string()),
        "Log 3".to_string(),
    );

    let traceback = get_logs_traceback(
        &store,
        Some(LogLevel::Warn),
        Some(vec!["channel2".to_string()]),
    )
    .to_string();
    assert!(traceback.contains("[channel2/Warn] Log 2"));
    assert!(!traceback.contains("[channel1/Info] Log 1"));
    assert!(!traceback.contains("[channel1/Error] Log 3"));
}

// Test the plain logging calls
#[test]
fn test_log_macros() {
    let mut store: LogStore<SilentListener> = LogStore::new();
    log(
        &mut store,
        Some(LogLevel::Info),
        Some("test_channel".to_string()),
        "Test log message".to_string(),
    );
    log(
        &mut store,
        Some(LogLevel::Info),
        None,
        "Test log message".to_string(),
    );
    log(
        &mut store,
        None,
        Some("test_channel".to_string()),
        "Test log message 2".to_string(),
    );

    let traceback = get_logs_traceback(&store, None, None).to_string();
    assert!(traceback.contains("[test_channel/Info] Test log message 2"));
    assert!(traceback.contains("[test_channel/Info] Test log message "));
    assert!(traceback.contains("[Info] Test log message"));
}

// Test the example in the README
#[test]
fn read_me_example() {
    let mut store: LogStore<SilentListener> = LogStore::new();
    init(&mut store);

    log(&mut store, None, None, "Hello, world!".to_string());
    log(
        &mut store,
        Some(LogLevel::Info),
        None,
        "Test log message".to_string(),
    );
    log(
        &mut store,
        None,
        Some("test_channel".to_string()),
        "Test log message".to_string(),
    );
    log(
        &mut store,
        Some(LogLevel::Info),
        Some("test_channel".to_string()),
        "Test log message".to_string(),
    );
}

struct MyLogListener2 {
    success: bool,
}

impl LogListener for MyLogListener2 {
    fn on_log(&mut self, log: Log) {
        if log.level.is_at_least(LogLevel::Warn) {
            self.success = true;
        }
    }
}

struct MockLogListenerWrapper2(Arc<Mutex<MyLogListener2>>);

impl LogListener for MockLogListenerWrapper2 {
    fn on_log(&mut self, log: Log) {
        self.0.lock().on_log(log);
    }
}

#[test]
fn no_std_readme_example() {
    let log_handler = Arc::new(Mutex::new(MyLogListener2 { success: false }));
    let log_handler_wrapper = MockLogListenerWrapper2(log_handler.clone());

    let mut store: LogStore<MockLogListenerWrapper2> = LogStore::new();
    init_with_listener(&mut store, log_handler_wrapper);

    log(
        &mut store,
        Some(LogLevel::Error),
        Some("test_channel".to_string()),
        "Test log message".to_string(),
    );

    assert!(log_handler.lock().success);
}
