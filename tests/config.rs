use activity_logger::config::{join_path, Config, HotkeyConfig, NotificationConfig, SummaryReportConfig};
use activity_logger::tray::config_summary;

fn base(log_dir: &str) -> Config {
    Config {
        key_log_file: "keys.log".to_string(),
        window_log_file: "windows.log".to_string(),
        log_dir: log_dir.to_string(),
        inactivity_timeout_secs: 5,
        screenshot_enabled: None,
        screenshot_interval_secs: None,
        screenshot_resolution: None,
        hotkeys: None,
        notification: None,
        summary_report: None,
    }
}

#[test]
fn paths_under_log_dir() {
    let c = base("/var/log/activity");
    assert_eq!(c.full_key_log_path("/tmp"), "/var/log/activity/keys.log");
    assert_eq!(c.active_window_log_path("/tmp"), "/var/log/activity/windows.log");
    assert_eq!(c.log_directory_path("/tmp"), "/var/log/activity");
}

#[test]
fn temp_log_dir_in_any_case() {
    let c = base("TeMp");
    assert_eq!(c.log_directory_path("/tmp/"), "/tmp/activity_logger");
    assert_eq!(c.full_key_log_path("/tmp"), "/tmp/activity_logger/keys.log");
}

#[test]
fn join_rules() {
    assert_eq!(join_path("a", "b"), "a/b");
    assert_eq!(join_path("a/", "b"), "a/b");
    assert_eq!(join_path("", "b"), "b");
    assert_eq!(join_path("a", "/b"), "/b");
}

#[test]
fn defaults() {
    let c = base("logs");
    assert_eq!(c.timeout_secs(), 5);
    assert!(c.ss_capture_flag());
    assert_eq!(c.screen_capture_resolution(), None);
    assert_eq!(c.hotkey_pause_resume(), None);
    assert_eq!(c.hotkey_screenshot(), None);
    assert!(!c.notify_on_start());
    assert!(!c.notify_on_stop());
    assert!(c.notify_on_error());
    assert!(!c.summary_report_enabled());
    assert_eq!(c.summary_report_interval_days(), 1);
    assert_eq!(c.summary_report_output_file(), None);
}

#[test]
fn set_values() {
    let mut c = base("logs");
    c.screenshot_enabled = Some(false);
    c.screenshot_resolution = Some((640, 480));
    c.hotkeys = Some(HotkeyConfig { pause_resume: Some("Ctrl+Shift+P".to_string()), screenshot: None });
    c.notification = Some(NotificationConfig { on_start: Some(true), on_stop: None, on_error: Some(false) });
    c.summary_report = Some(SummaryReportConfig {
        enabled: Some(true),
        interval_days: Some(7),
        output_file: Some("weekly.txt".to_string()),
    });
    assert!(!c.ss_capture_flag());
    assert_eq!(c.screen_capture_resolution(), Some((640, 480)));
    assert_eq!(c.hotkey_pause_resume(), Some("Ctrl+Shift+P"));
    assert_eq!(c.hotkey_screenshot(), None);
    assert!(c.notify_on_start());
    assert!(!c.notify_on_stop());
    assert!(!c.notify_on_error());
    assert!(c.summary_report_enabled());
    assert_eq!(c.summary_report_interval_days(), 7);
    assert_eq!(c.summary_report_output_file(), Some("weekly.txt"));
}

#[test]
fn summary_text_minimal() {
    let c = base("logs");
    assert_eq!(
        config_summary(&c),
        "Key Log File: keys.log\nWindow Log File: windows.log\nLog Dir: logs\n\
         Inactivity Timeout: 5s\nScreenshot Enabled: false\nScreenshot Interval: 0s\n"
    );
}

#[test]
fn summary_text_full() {
    let mut c = base("temp");
    c.inactivity_timeout_secs = 120;
    c.screenshot_enabled = Some(true);
    c.screenshot_interval_secs = Some(30);
    c.screenshot_resolution = Some((1280, 720));
    c.hotkeys = Some(HotkeyConfig { pause_resume: Some("Ctrl+P".to_string()), screenshot: Some("Ctrl+S".to_string()) });
    c.notification = Some(NotificationConfig { on_start: Some(true), on_stop: None, on_error: None });
    c.summary_report = Some(SummaryReportConfig { enabled: None, interval_days: Some(3), output_file: None });
    let expected = "Key Log File: keys.log\nWindow Log File: windows.log\nLog Dir: temp\n\
        Inactivity Timeout: 120s\nScreenshot Enabled: true\nScreenshot Interval: 30s\n\
        Screenshot Resolution: 1280x720\nHotkeys:\n  Pause/Resume: Ctrl+P\n  Screenshot: Ctrl+S\n\
        Notifications:\n  On Start: true\n  On Stop: false\n  On Error: false\n\
        Summary Report:\n  Enabled: false\n  Interval Days: 3\n";
    assert_eq!(config_summary(&c), expected);
}
