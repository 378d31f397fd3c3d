use catpane::filter::{Filter, TagFilter, TagLevelMatcher};
use catpane::log_entry::{LogEntry, LogLevel, LogPlatform};

fn entry(tag: &str, level: LogLevel) -> LogEntry {
    LogEntry {
        platform: LogPlatform::Android,
        timestamp: "03-10 06:30:45.123".to_string(),
        pid: Some(1234),
        tid: Some(5678),
        level,
        tag: tag.to_string(),
        process: None,
        subsystem: None,
        category: None,
        message: "hello".to_string(),
    }
}

fn springboard_entry() -> LogEntry {
    LogEntry {
        platform: LogPlatform::Ios,
        timestamp: "03-29 13:59:40.572".to_string(),
        pid: Some(123),
        tid: Some(42),
        level: LogLevel::Info,
        tag: "com.apple.SpringBoard".to_string(),
        process: Some("SpringBoard".to_string()),
        subsystem: Some("com.apple.SpringBoard".to_string()),
        category: Some("lifecycle".to_string()),
        message: "hello".to_string(),
    }
}

#[test]
fn parses_android_style_tag_level_filters() {
    let filters = Filter::parse_tag_filters("CallManagerService:V *:E tag-:Noise");

    assert!(filters.iter().any(|filter| {
        matches!(
            filter,
            TagFilter::MinLevel {
                matcher: TagLevelMatcher::Exact(tag),
                min_level: LogLevel::Verbose,
            } if tag == "CallManagerService"
        )
    }));
    assert!(filters.iter().any(|filter| {
        matches!(
            filter,
            TagFilter::MinLevel {
                matcher: TagLevelMatcher::Any,
                min_level: LogLevel::Error,
            }
        )
    }));
    assert!(filters
        .iter()
        .any(|filter| matches!(filter, TagFilter::Exclude(tag) if tag == "Noise")));
}

#[test]
fn matches_specific_tag_and_wildcard_level_filters() {
    let mut filter = Filter {
        min_level: LogLevel::Info,
        ..Filter::default()
    };
    filter.tag_filters = Filter::parse_tag_filters("CallManagerService:V *:E");

    assert!(filter.matches(&entry("CallManagerService", LogLevel::Debug), None));
    assert!(filter.matches(&entry("OtherTag", LogLevel::Error), None));
    assert!(!filter.matches(&entry("OtherTag", LogLevel::Warn), None));
}

#[test]
fn tag_level_filters_disable_vendor_noise_suppression() {
    let mut filter = Filter::default();
    filter.tag_filters = Filter::parse_tag_filters("*:E");

    assert!(filter.matches(&entry("chatty", LogLevel::Error), None));
}

#[test]
fn matches_ios_process_subsystem_and_category_filters() {
    let mut filter = Filter::default();
    filter.ios_process = Some("MyApp".to_string());
    filter.ios_subsystem = Some("com.example".to_string());
    filter.ios_category = Some("network".to_string());

    let entry = LogEntry {
        platform: LogPlatform::Ios,
        timestamp: "03-29 13:59:40.572".to_string(),
        pid: Some(123),
        tid: Some(42),
        level: LogLevel::Info,
        tag: "com.example.app".to_string(),
        process: Some("MyApp".to_string()),
        subsystem: Some("com.example.app".to_string()),
        category: Some("networking".to_string()),
        message: "hello".to_string(),
    };

    assert!(filter.matches(&entry, None));
}

#[test]
fn hides_ios_device_logs_by_default() {
    let filter = Filter::default();
    assert!(!filter.matches(&springboard_entry(), None));
}

#[test]
fn keeps_ios_app_logs_visible_by_default() {
    let filter = Filter::default();
    let entry = LogEntry {
        platform: LogPlatform::Ios,
        timestamp: "03-29 13:59:40.572".to_string(),
        pid: Some(123),
        tid: Some(42),
        level: LogLevel::Info,
        tag: "com.example.app".to_string(),
        process: Some("MyApp".to_string()),
        subsystem: Some("com.example.app".to_string()),
        category: Some("network".to_string()),
        message: "hello".to_string(),
    };

    assert!(filter.matches(&entry, None));
}

#[test]
fn explicit_ios_filters_disable_device_log_suppression() {
    let mut filter = Filter::default();
    filter.ios_process = Some("SpringBoard".to_string());
    assert!(filter.matches(&springboard_entry(), None));
}

#[test]
fn explicit_tag_filters_disable_ios_device_log_suppression() {
    let mut filter = Filter::default();
    filter.tag_filters = Filter::parse_tag_filters("tag:com.apple.SpringBoard");
    assert!(filter.matches(&springboard_entry(), None));
}

#[test]
fn level_below_minimum_is_hidden() {
    let filter = Filter {
        min_level: LogLevel::Warn,
        ..Filter::default()
    };
    assert!(!filter.matches(&entry("App", LogLevel::Info), None));
    assert!(filter.matches(&entry("App", LogLevel::Warn), None));
}

#[test]
fn pid_filter_hides_other_processes() {
    let filter = Filter::default();
    assert!(filter.matches(&entry("App", LogLevel::Info), Some(1234)));
    assert!(!filter.matches(&entry("App", LogLevel::Info), Some(99)));
}

#[test]
fn search_text_matches_message_case_insensitively() {
    let mut filter = Filter::default();
    assert!(filter.matches_search(&entry("App", LogLevel::Info)));
    filter.set_search("HELLO");
    assert!(filter.matches_search(&entry("App", LogLevel::Info)));
    filter.set_search("absent");
    assert!(!filter.matches_search(&entry("App", LogLevel::Info)));
}

#[test]
fn exclude_filter_hides_matching_tag() {
    let mut filter = Filter::default();
    filter.tag_filters = Filter::parse_tag_filters("tag-:Noise");
    assert!(!filter.matches(&entry("Noise", LogLevel::Info), None));
    assert!(filter.matches(&entry("Signal", LogLevel::Info), None));
}
