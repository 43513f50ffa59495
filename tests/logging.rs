use scale_bridge::logger::{
    debug, error, info, level_label, log_file_target, level_name, log, parse_level, render_line, success, warning, LogLevel,
    LogRecord, Logger,
};

#[test]
fn level_names_parse_in_any_case() {
    assert_eq!(parse_level("debug"), LogLevel::Debug);
    assert_eq!(parse_level("Success"), LogLevel::Success);
    assert_eq!(parse_level("WARNING"), LogLevel::Warning);
    assert_eq!(parse_level("error"), LogLevel::Error);
    assert_eq!(parse_level("info"), LogLevel::Info);
    assert_eq!(parse_level("verbose"), LogLevel::Info);
    assert_eq!(parse_level(""), LogLevel::Info);
}

#[test]
fn records_carry_their_level() {
    assert_eq!(success("m", "M").level, LogLevel::Success);
    assert_eq!(error("m", "M").level, LogLevel::Error);
    assert_eq!(warning("m", "M").level, LogLevel::Warning);
    assert_eq!(info("m", "M").level, LogLevel::Info);
    assert_eq!(debug("m", "M").level, LogLevel::Debug);
    let r = log("hello", "Serial");
    assert_eq!(r.level, LogLevel::Info);
    assert_eq!(r.message, "hello");
    assert_eq!(r.module, "Serial");
}

#[test]
fn line_layout() {
    let rec = LogRecord { level: LogLevel::Error, module: "Serial".to_string(), message: "boom".to_string() };
    assert_eq!(
        render_line(&rec, "2024-01-02 03:04:05"),
        "\x1b[91m[ERROR] [ 模块: Serial ] [ 时间: 2024-01-02 03:04:05 ] boom\x1b[0m"
    );
    assert_eq!(level_name(LogLevel::Success), "SUCCESS");
    assert_eq!(level_label(LogLevel::Debug), "Debug");
}

#[test]
fn level_filters_records() {
    let mut l = Logger::new();
    assert_eq!(l.level(), LogLevel::Info);
    assert!(l.accepts(LogLevel::Error));
    assert!(l.accepts(LogLevel::Info));
    assert!(!l.accepts(LogLevel::Debug));
    assert!(l.output_log(&debug("d", "M")).is_none());
    let line = l.output_log(&info("hello", "M")).unwrap();
    assert!(line.starts_with("\x1b[90m[INFO] [ 模块: M ] [ 时间: "));
    assert!(line.ends_with(" ] hello\x1b[0m"));
    let announced = l.set_level("debug").unwrap();
    assert_eq!(announced.message, "Logger 日志级别设置为: Debug");
    assert_eq!(announced.module, "Logger");
    assert_eq!(l.level(), LogLevel::Debug);
    assert!(l.output_log(&debug("d", "M")).is_some());
}

#[test]
fn announcement_follows_old_level() {
    let mut l = Logger::default();
    assert!(l.set_level("error").is_some());
    assert_eq!(l.level(), LogLevel::Error);
    assert!(l.set_level("info").is_none());
    assert_eq!(l.level(), LogLevel::Info);
}

#[test]
fn log_target_choice() {
    assert_eq!(log_file_target(&None), None);
    assert_eq!(log_file_target(&Some(String::new())), None);
    assert_eq!(log_file_target(&Some("app.log".to_string())), Some("app.log".to_string()));
}
