//! Engine log lines on their way into the application's logger.

use llingr_kafka::logging::{LogLevel, LogRouter};
use llingr_kafka::LOG_TARGET;

/// The severity that the application's logger knows.
fn facade_level(level: LogLevel) -> log::Level {
    match level {
        LogLevel::Debug => log::Level::Debug,
        LogLevel::Info => log::Level::Info,
        LogLevel::Warn => log::Level::Warn,
        LogLevel::Error => log::Level::Error,
    }
}

#[test]
fn forwards_levels_and_target() {
    let router = LogRouter::new();
    let mut captured: Vec<(log::Level, String, String)> = Vec::new();
    for (level, message) in [
        (LogLevel::Debug, "d"),
        (LogLevel::Info, "i"),
        (LogLevel::Warn, "w"),
        (LogLevel::Error, "e"),
    ] {
        let record = router.log(level, message);
        captured.push((
            facade_level(record.level),
            record.target.to_string(),
            record.message,
        ));
    }

    let expect = [
        (log::Level::Debug, "d"),
        (log::Level::Info, "i"),
        (log::Level::Warn, "w"),
        (log::Level::Error, "e"),
    ];
    for (level, message) in expect {
        assert!(
            captured
                .iter()
                .any(|(l, t, m)| *l == level && t == LOG_TARGET && m == message),
            "missing {level} {message}"
        );
    }
    assert_eq!(LOG_TARGET, "llingr");
}
