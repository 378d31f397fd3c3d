use catpane::crash_detector::{
    detect_crashes, detect_crashes_indexed, CrashDetector, CrashType, MAX_ACCUMULATION_LINES,
};
use catpane::log_entry::{LogEntry, LogLevel, LogPlatform};

fn android_entry(level: LogLevel, tag: &str, message: &str) -> LogEntry {
    LogEntry {
        platform: LogPlatform::Android,
        timestamp: "01-01 12:00:00.000".into(),
        pid: Some(1234),
        tid: Some(1234),
        level,
        tag: tag.into(),
        process: None,
        subsystem: None,
        category: None,
        message: message.into(),
    }
}

fn android_entry_pid(level: LogLevel, tag: &str, message: &str, pid: u32) -> LogEntry {
    LogEntry {
        pid: Some(pid),
        ..android_entry(level, tag, message)
    }
}

fn ios_entry(level: LogLevel, message: &str) -> LogEntry {
    LogEntry {
        platform: LogPlatform::Ios,
        timestamp: "2024-01-01 12:00:00.000".into(),
        pid: Some(5678),
        tid: Some(5678),
        level,
        tag: String::new(),
        process: Some("MyApp".into()),
        subsystem: None,
        category: None,
        message: message.into(),
    }
}

#[test]
fn simple_java_exception() {
    let entries = vec![
        android_entry(LogLevel::Error, "AndroidRuntime", "FATAL EXCEPTION: main"),
        android_entry(
            LogLevel::Error,
            "AndroidRuntime",
            "java.lang.NullPointerException: Attempt to invoke virtual method",
        ),
        android_entry(
            LogLevel::Error,
            "AndroidRuntime",
            "\tat com.example.App.onCreate(App.java:42)",
        ),
        android_entry(
            LogLevel::Error,
            "AndroidRuntime",
            "\tat android.app.Activity.performCreate(Activity.java:1)",
        ),
        android_entry(LogLevel::Info, "System", "Normal log after crash"),
    ];

    let reports = detect_crashes(&entries);
    assert_eq!(reports.len(), 1);
    let r = &reports[0];
    assert_eq!(r.crash_type, CrashType::JavaException);
    assert!(r.headline.contains("FATAL EXCEPTION"));
    assert_eq!(r.first_index, 0);
    assert_eq!(r.last_index, 3);
    assert_eq!(r.stack_trace.len(), 4);
}

#[test]
fn java_exception_caused_by() {
    let entries = vec![
        android_entry(LogLevel::Error, "AndroidRuntime", "FATAL EXCEPTION: main"),
        android_entry(
            LogLevel::Error,
            "AndroidRuntime",
            "java.lang.RuntimeException: Unable to start activity",
        ),
        android_entry(
            LogLevel::Error,
            "AndroidRuntime",
            "\tat android.app.ActivityThread.main(ActivityThread.java:1)",
        ),
        android_entry(
            LogLevel::Error,
            "AndroidRuntime",
            "Caused by: java.lang.NullPointerException",
        ),
        android_entry(
            LogLevel::Error,
            "AndroidRuntime",
            "\tat com.example.Foo.bar(Foo.java:10)",
        ),
        android_entry(LogLevel::Error, "AndroidRuntime", "... 5 more"),
        android_entry(LogLevel::Info, "System", "unrelated"),
    ];

    let reports = detect_crashes(&entries);
    assert_eq!(reports.len(), 1);
    let r = &reports[0];
    assert_eq!(r.stack_trace.len(), 6);
    assert!(r.stack_trace[3].contains("Caused by:"));
    assert!(r.stack_trace[5].contains("... 5 more"));
}

#[test]
fn native_crash() {
    let entries = vec![
        android_entry(
            LogLevel::Fatal,
            "libc",
            "Fatal signal 11 (SIGSEGV), code 1, fault addr 0x0",
        ),
        android_entry(LogLevel::Fatal, "DEBUG", "pid: 1234, tid: 1234, name: main"),
        android_entry(LogLevel::Fatal, "DEBUG", "backtrace:"),
        android_entry(
            LogLevel::Fatal,
            "DEBUG",
            "    #00 pc 0x00001234  /system/lib/libc.so",
        ),
        android_entry(
            LogLevel::Fatal,
            "DEBUG",
            "    #01 pc 0x00005678  /data/app/libfoo.so",
        ),
        android_entry(LogLevel::Info, "System", "normal line"),
    ];

    let reports = detect_crashes(&entries);
    assert_eq!(reports.len(), 1);
    let r = &reports[0];
    assert_eq!(r.crash_type, CrashType::NativeCrash);
    assert!(r.headline.contains("Fatal signal"));
    assert_eq!(r.first_index, 0);
    assert_eq!(r.last_index, 4);
}

#[test]
fn anr_detection() {
    let entries = vec![
        android_entry(LogLevel::Error, "ActivityManager", "ANR in com.example.app"),
        android_entry(
            LogLevel::Error,
            "ActivityManager",
            "Reason: Input dispatching timed out",
        ),
        android_entry(LogLevel::Info, "System", "something else"),
    ];

    let reports = detect_crashes(&entries);
    assert_eq!(reports.len(), 1);
    let r = &reports[0];
    assert_eq!(r.crash_type, CrashType::Anr);
    assert!(r.headline.contains("ANR in"));
    assert_eq!(r.first_index, 0);
    assert_eq!(r.last_index, 1);
}

#[test]
fn ios_crash_detection() {
    let entries = vec![
        ios_entry(
            LogLevel::Error,
            "Terminating app due to uncaught exception 'NSInvalidArgumentException'",
        ),
        ios_entry(LogLevel::Error, "0x1a2b3c CoreFoundation __exceptionPreprocess"),
        ios_entry(LogLevel::Error, "0x4d5e6f libobjc.A.dylib objc_exception_throw"),
        ios_entry(LogLevel::Info, "normal ios log"),
    ];

    let reports = detect_crashes(&entries);
    assert_eq!(reports.len(), 1);
    let r = &reports[0];
    assert_eq!(r.crash_type, CrashType::IosCrash);
    assert!(r.headline.contains("Terminating app"));
    assert_eq!(r.stack_trace.len(), 3);
}

#[test]
fn multiple_crashes_in_sequence() {
    let entries = vec![
        android_entry(LogLevel::Error, "AndroidRuntime", "FATAL EXCEPTION: main"),
        android_entry(LogLevel::Error, "AndroidRuntime", "\tat com.example.A.foo(A.java:1)"),
        android_entry(LogLevel::Info, "System", "gap"),
        android_entry(LogLevel::Error, "ActivityManager", "ANR in com.example.other"),
        android_entry(LogLevel::Info, "System", "done"),
    ];

    let reports = detect_crashes(&entries);
    assert_eq!(reports.len(), 2);
    assert_eq!(reports[0].crash_type, CrashType::JavaException);
    assert_eq!(reports[1].crash_type, CrashType::Anr);
}

#[test]
fn non_crash_entries_return_none() {
    let mut detector = CrashDetector::new();
    let e1 = android_entry(LogLevel::Info, "System", "All good");
    let e2 = android_entry(LogLevel::Debug, "MyApp", "Some debug output");
    let e3 = android_entry(LogLevel::Warn, "MyApp", "A warning");

    assert!(detector.feed(0, &e1).is_none());
    assert!(detector.feed(1, &e2).is_none());
    assert!(detector.feed(2, &e3).is_none());
    assert!(detector.flush().is_none());
}

#[test]
fn flush_emits_pending() {
    let mut detector = CrashDetector::new();
    let trigger = android_entry(LogLevel::Error, "AndroidRuntime", "FATAL EXCEPTION: main");
    let frame = android_entry(
        LogLevel::Error,
        "AndroidRuntime",
        "\tat com.example.Crash.run(Crash.java:1)",
    );

    assert!(detector.feed(0, &trigger).is_none());
    assert!(detector.feed(1, &frame).is_none());

    let report = detector.flush().expect("should emit pending crash");
    assert_eq!(report.crash_type, CrashType::JavaException);
    assert_eq!(report.first_index, 0);
    assert_eq!(report.last_index, 1);
    assert_eq!(report.stack_trace.len(), 2);
}

#[test]
fn accumulation_limit() {
    let mut entries = vec![android_entry(
        LogLevel::Error,
        "AndroidRuntime",
        "FATAL EXCEPTION: main",
    )];
    for i in 0..200 {
        entries.push(android_entry(
            LogLevel::Error,
            "AndroidRuntime",
            &format!("\tat com.example.Frame{}.method(Frame.java:{})", i, i),
        ));
    }
    entries.push(android_entry(
        LogLevel::Error,
        "AndroidRuntime",
        "\tat com.example.Overflow.method(Overflow.java:1)",
    ));

    let reports = detect_crashes(&entries);
    assert!(!reports.is_empty());
    let r = &reports[0];
    assert_eq!(r.stack_trace.len(), MAX_ACCUMULATION_LINES);
}

#[test]
fn different_pid_breaks_accumulation() {
    let entries = vec![
        android_entry_pid(LogLevel::Error, "AndroidRuntime", "FATAL EXCEPTION: main", 100),
        android_entry_pid(
            LogLevel::Error,
            "AndroidRuntime",
            "\tat com.example.Foo.bar(Foo.java:1)",
            100,
        ),
        android_entry_pid(
            LogLevel::Info,
            "AndroidRuntime",
            "\tat com.other.Baz.qux(Baz.java:1)",
            999,
        ),
    ];

    let reports = detect_crashes(&entries);
    assert_eq!(reports.len(), 1);
    let r = &reports[0];
    assert_eq!(r.stack_trace.len(), 2);
    assert_eq!(r.pid, Some(100));
}

#[test]
fn detect_crashes_indexed_offset() {
    let e1 = android_entry(LogLevel::Error, "AndroidRuntime", "FATAL EXCEPTION: main");
    let e2 = android_entry(LogLevel::Error, "AndroidRuntime", "\tat com.example.A.b(A.java:1)");
    let e3 = android_entry(LogLevel::Info, "System", "normal");

    let indexed: Vec<(usize, &LogEntry)> = vec![(500, &e1), (501, &e2), (502, &e3)];
    let reports = detect_crashes_indexed(&indexed);

    assert_eq!(reports.len(), 1);
    assert_eq!(reports[0].first_index, 500);
    assert_eq!(reports[0].last_index, 501);
}

#[test]
fn crash_report_keeps_timestamp_and_tag_of_trigger() {
    let entries = vec![
        android_entry(LogLevel::Error, "AndroidRuntime", "FATAL EXCEPTION: main"),
        android_entry(LogLevel::Info, "System", "after"),
    ];
    let reports = detect_crashes(&entries);
    assert_eq!(reports.len(), 1);
    assert_eq!(reports[0].timestamp, "01-01 12:00:00.000");
    assert_eq!(reports[0].tag, "AndroidRuntime");
    assert_eq!(reports[0].headline, "FATAL EXCEPTION: main");
}

#[test]
fn empty_input_gives_no_reports() {
    let entries: Vec<LogEntry> = Vec::new();
    assert!(detect_crashes(&entries).is_empty());
}
