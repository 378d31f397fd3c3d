use catpane::log_entry::{
    ios_log_record_to_entry, ios_message_type_to_level, ios_syslog_level_to_level,
    normalize_ios_syslog_timestamp, normalize_ios_timestamp, parse_ios_syslog_line,
    parse_logcat_line, process_name_from_path, IosLogRecord, LogLevel, LogPlatform,
};

#[test]
fn test_parse_threadtime() {
    let line = "03-10 06:30:45.123  1234  5678 D MyTag   : Hello world";
    let entry = parse_logcat_line(line).unwrap();
    assert_eq!(entry.timestamp, "03-10 06:30:45.123");
    assert_eq!(entry.pid, Some(1234));
    assert_eq!(entry.tid, Some(5678));
    assert_eq!(entry.level, LogLevel::Debug);
    assert_eq!(entry.tag, "MyTag");
    assert_eq!(entry.message, "Hello world");
}

#[test]
fn parses_ios_ndjson_lines() {
    // {"messageType":"Default","subsystem":"com.example.app","category":"network",
    //  "threadID":42,"processImagePath":"/Applications/MyApp.app/MyApp",
    //  "timestamp":"2026-03-29 13:59:40.572987+0500","eventMessage":"hello from ios",
    //  "processID":123}
    let record = IosLogRecord {
        timestamp: "2026-03-29 13:59:40.572987+0500".to_string(),
        message_type: "Default".to_string(),
        event_message: "hello from ios".to_string(),
        subsystem: "com.example.app".to_string(),
        category: "network".to_string(),
        process_image_path: "/Applications/MyApp.app/MyApp".to_string(),
        process_id: 123,
        thread_id: 42,
    };
    let entry = ios_log_record_to_entry(record).unwrap();
    assert_eq!(entry.platform, LogPlatform::Ios);
    assert_eq!(entry.timestamp, "03-29 13:59:40.572");
    assert_eq!(entry.pid, Some(123));
    assert_eq!(entry.tid, Some(42));
    assert_eq!(entry.tag, "com.example.app");
    assert_eq!(entry.process.as_deref(), Some("MyApp"));
    assert_eq!(entry.subsystem.as_deref(), Some("com.example.app"));
    assert_eq!(entry.category.as_deref(), Some("network"));
    assert_eq!(entry.message, "hello from ios");
}

#[test]
fn parses_ios_syslog_lines() {
    let line = "Apr 16 12:11:32 iPhone SpringBoard[58] <Notice>: Application launched successfully";
    let entry = parse_ios_syslog_line(line).unwrap();
    assert_eq!(entry.platform, LogPlatform::Ios);
    assert_eq!(entry.timestamp, "04-16 12:11:32.000");
    assert_eq!(entry.pid, Some(58));
    assert_eq!(entry.tid, None);
    assert_eq!(entry.level, LogLevel::Info);
    assert_eq!(entry.tag, "SpringBoard");
    assert_eq!(entry.process.as_deref(), Some("SpringBoard"));
    assert_eq!(entry.subsystem, None);
    assert_eq!(entry.category, None);
    assert_eq!(entry.message, "Application launched successfully");
}

#[test]
fn parses_ios_os_trace_relay_lines() {
    let line = "Apr 20 17:22:28.425237 locationd[1868] <Debug>: [Accelerometer] x,y,z";
    let entry = parse_ios_syslog_line(line).unwrap();
    assert_eq!(entry.timestamp, "04-20 17:22:28.425");
    assert_eq!(entry.pid, Some(1868));
    assert_eq!(entry.tag, "locationd");
    assert_eq!(entry.process.as_deref(), Some("locationd"));
    assert_eq!(entry.level, LogLevel::Debug);
    assert_eq!(entry.message, "[Accelerometer] x,y,z");

    let line = "Apr 20 17:22:28.438195 SpringBoard(CoreFoundation)[35] <Debug>: Bundle: value";
    let entry = parse_ios_syslog_line(line).unwrap();
    assert_eq!(entry.pid, Some(35));
    assert_eq!(entry.tag, "SpringBoard(CoreFoundation)");
    assert_eq!(entry.process.as_deref(), Some("SpringBoard(CoreFoundation)"));
    assert_eq!(entry.message, "Bundle: value");
}

#[test]
fn logcat_line_without_message_separator_is_rejected() {
    assert!(parse_logcat_line("not a logcat line").is_none());
    assert!(parse_logcat_line("").is_none());
}

#[test]
fn logcat_level_letters_map_to_levels() {
    let entry = parse_logcat_line("03-10 06:30:45.123  1  2 E Tag: boom").unwrap();
    assert_eq!(entry.level, LogLevel::Error);
    assert_eq!(entry.platform, LogPlatform::Android);
    assert_eq!(LogLevel::from_char('W'), Some(LogLevel::Warn));
    assert_eq!(LogLevel::from_char('x'), None);
    assert_eq!(LogLevel::Fatal.as_char(), 'F');
}

#[test]
fn ios_timestamps_are_reduced_to_month_day_and_millis() {
    assert_eq!(
        normalize_ios_timestamp("2026-03-29 13:59:40.572987+0500").as_deref(),
        Some("03-29 13:59:40.572")
    );
    assert_eq!(normalize_ios_timestamp("short"), None);
    assert_eq!(
        normalize_ios_syslog_timestamp("Dec", "5", "01:02:03", Some("7")).as_deref(),
        Some("12-05 01:02:03.700")
    );
    assert_eq!(normalize_ios_syslog_timestamp("Foo", "5", "01:02:03", None), None);
}

#[test]
fn process_names_come_from_the_last_path_component() {
    assert_eq!(
        process_name_from_path("/Applications/MyApp.app/MyApp").as_deref(),
        Some("MyApp")
    );
    assert_eq!(process_name_from_path(""), None);
}

#[test]
fn ios_message_types_map_to_levels() {
    assert_eq!(ios_message_type_to_level("Error"), LogLevel::Error);
    assert_eq!(ios_message_type_to_level("Fault"), LogLevel::Fatal);
    assert_eq!(ios_syslog_level_to_level("Warning"), LogLevel::Warn);
    assert_eq!(ios_syslog_level_to_level("Notice"), LogLevel::Info);
}

#[test]
fn ios_record_without_subsystem_is_tagged_by_process() {
    let record = IosLogRecord {
        timestamp: "2026-03-29 13:59:40.572987+0500".to_string(),
        message_type: "Error".to_string(),
        event_message: "m".to_string(),
        subsystem: "  ".to_string(),
        category: String::new(),
        process_image_path: "/usr/bin/daemon".to_string(),
        process_id: 1,
        thread_id: 2,
    };
    let entry = ios_log_record_to_entry(record).unwrap();
    assert_eq!(entry.tag, "daemon");
    assert_eq!(entry.subsystem, None);
    assert_eq!(entry.level, LogLevel::Error);
}

#[test]
fn levels_have_their_colours() {
    assert_eq!(LogLevel::Verbose.color(), (92, 99, 112));
    assert_eq!(LogLevel::Error.color(), (224, 108, 117));
    assert_eq!(LogLevel::Fatal.color(), (198, 120, 221));
}
