use btcpay_ws::args::{MissingArgument, Settings};
use btcpay_ws::log::{get_log_level, LogLevel};

const LEVELS: [LogLevel; 5] = [LogLevel::Trace, LogLevel::Debug, LogLevel::Info, LogLevel::Warn, LogLevel::Error];

#[test]
fn graver_messages_are_visible() {
    for (asked_rank, asked) in LEVELS.iter().enumerate() {
        for (message_rank, message) in LEVELS.iter().enumerate() {
            assert_eq!(asked.visible(message), message_rank >= asked_rank);
        }
    }
}

#[test]
fn error_level_shows_only_errors() {
    assert!(LogLevel::Error.visible(&LogLevel::Error));
    assert!(!LogLevel::Error.visible(&LogLevel::Warn));
    assert!(!LogLevel::Error.visible(&LogLevel::Trace));
}

#[test]
fn trace_level_shows_everything() {
    for message in LEVELS.iter() {
        assert!(LogLevel::Trace.visible(message));
    }
    assert!(!LogLevel::Debug.visible(&LogLevel::Trace));
    assert!(LogLevel::Info.visible(&LogLevel::Warn));
    assert!(!LogLevel::Warn.visible(&LogLevel::Info));
}

#[test]
fn level_is_read_from_its_setting() {
    assert_eq!(get_log_level(Some("trace")), LogLevel::Trace);
    assert_eq!(get_log_level(Some("debug")), LogLevel::Debug);
    assert_eq!(get_log_level(Some("info")), LogLevel::Info);
    assert_eq!(get_log_level(Some("warn")), LogLevel::Warn);
    assert_eq!(get_log_level(Some("error")), LogLevel::Error);
    assert_eq!(get_log_level(Some("TRACE")), LogLevel::Error);
    assert_eq!(get_log_level(Some("")), LogLevel::Error);
    assert_eq!(get_log_level(None), LogLevel::Error);
}

#[test]
fn levels_have_labels_of_one_width() {
    assert_eq!(LogLevel::Trace.label(), "trace:");
    assert_eq!(LogLevel::Debug.label(), "debug:");
    assert_eq!(LogLevel::Info.label(), "info: ");
    assert_eq!(LogLevel::Warn.label(), "warn: ");
    assert_eq!(LogLevel::Error.label(), "error:");
}

#[test]
fn settings_fall_back_to_the_usual_port_and_no_password() {
    let settings = Settings::resolve(Some("secret".to_string()), Some("localhost".to_string()), None, None).unwrap();
    assert_eq!(settings.hmac, "secret");
    assert_eq!(settings.host, "localhost");
    assert_eq!(settings.port, "6379");
    assert_eq!(settings.password, "");
    assert_eq!(settings.store().connection_url(), "redis://:@localhost:6379");
    assert_eq!(settings.listen_address(), "localhost:5000");
}

#[test]
fn settings_keep_what_is_given() {
    let settings = Settings::resolve(
        Some("secret".to_string()),
        Some("10.1.2.3".to_string()),
        Some("7000".to_string()),
        Some("hunter2".to_string()),
    )
    .unwrap();
    assert_eq!(settings.port, "7000");
    assert_eq!(settings.password, "hunter2");
    assert_eq!(settings.store().connection_url(), "redis://:hunter2@10.1.2.3:7000");
    assert_eq!(settings.listen_address(), "10.1.2.3:5000");
}

#[test]
fn secret_and_host_must_be_given() {
    assert_eq!(Settings::resolve(None, Some("localhost".to_string()), None, None).err(), Some(MissingArgument::Hmac));
    assert_eq!(Settings::resolve(None, None, None, None).err(), Some(MissingArgument::Hmac));
    assert_eq!(Settings::resolve(Some("secret".to_string()), None, Some("1".to_string()), None).err(), Some(MissingArgument::Host));
}
