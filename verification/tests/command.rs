use catpane::command::{render_duration, render_output_details, OneShotCommand};

#[test]
fn renders_timeout_errors_with_context() {
    let command = OneShotCommand::new(
        "adb".to_string(),
        vec!["devices".to_string(), "-l".to_string()],
        "listing connected Android devices",
        5,
        0,
    );

    let err = command.timeout_error();

    assert_eq!(
        err,
        "Timed out after 5s while listing connected Android devices with `adb devices -l`"
    );
}

#[test]
fn renders_output_details_from_stdout_and_stderr() {
    assert_eq!(
        render_output_details(b"hello\nworld\n", b"warning"),
        Some("stdout: hello | world; stderr: warning".to_string())
    );
}

#[test]
fn renders_status_errors_with_exit_details() {
    let command = OneShotCommand::new(
        "xcrun".to_string(),
        vec!["simctl".to_string(), "list".to_string(), "devices".to_string(), "--json".to_string()],
        "listing available iOS simulators",
        5,
        0,
    );

    assert_eq!(
        command.status_error(Some(1), b"", b"simctl unavailable"),
        "`xcrun simctl list devices --json` failed while listing available iOS simulators with exit code 1: stderr: simctl unavailable"
    );
}

#[test]
fn renders_subsecond_durations_in_millis() {
    assert_eq!(render_duration(0, 250_000_000), "250ms");
}

#[test]
fn renders_whole_seconds() {
    assert_eq!(render_duration(5, 0), "5s");
}

#[test]
fn display_quotes_arguments_with_spaces() {
    let command = OneShotCommand::new(
        "adb".to_string(),
        vec!["shell".to_string(), "echo hi".to_string()],
        "testing",
        1,
        0,
    );
    let shown = command.display();
    assert!(shown.starts_with("adb shell "));
    assert!(shown.contains("echo hi"));
}
