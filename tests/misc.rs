use activity_logger::config::{Config, NotificationConfig, SummaryReportConfig};
use activity_logger::notification::{NotificationType, Notifier};
use activity_logger::probe::{format_window_label, labelled_window};
use activity_logger::report::SummaryReporter;
use activity_logger::screenshot::{capture_one_screenshot, render_frame, screenshot_dir, screenshot_file_name, CaptureError};
use activity_logger::text::{decimal, trim};
use activity_logger::tray::TrayMessage;

fn cfg() -> Config {
    Config {
        key_log_file: "keys.log".to_string(),
        window_log_file: "windows.log".to_string(),
        log_dir: "/logs".to_string(),
        inactivity_timeout_secs: 2,
        screenshot_enabled: Some(true),
        screenshot_interval_secs: None,
        screenshot_resolution: None,
        hotkeys: None,
        notification: None,
        summary_report: None,
    }
}

#[test]
fn notifications_follow_config() {
    let mut c = cfg();
    let n = Notifier::new(&c);
    assert!(n.notify(NotificationType::Start).is_none());
    assert!(n.notify(NotificationType::Stop).is_none());
    let e = n.notify(NotificationType::Error("disk full".to_string())).unwrap();
    assert_eq!(e.summary, "Activity Logger Error");
    assert_eq!(e.body, "disk full");
    assert_eq!(e.hint.as_deref(), Some("error"));
    c.notification = Some(NotificationConfig { on_start: Some(true), on_stop: Some(true), on_error: Some(false) });
    let n = Notifier::new(&c);
    let s = n.notify(NotificationType::Start).unwrap();
    assert_eq!((s.summary.as_str(), s.body.as_str()), ("Activity Logger", "Logging started"));
    assert_eq!(n.notify(NotificationType::Stop).unwrap().body, "Logging stopped");
    assert!(n.notify(NotificationType::Error("x".to_string())).is_none());
}

#[test]
fn report_text_and_path() {
    let mut c = cfg();
    let r = SummaryReporter::new(&c);
    assert!(!r.enabled());
    assert_eq!(
        r.report_text("2024-05-01 10:00:00", 12, 3),
        "Activity Summary Report\nDate: 2024-05-01 10:00:00\nInterval: Last 1 day(s)\n\
         --------------------------\nKey log entries: 12\nWindow log entries: 3\n"
    );
    assert_eq!(r.report_path("/tmp"), "/logs/activity_summary_report.txt");
    c.summary_report = Some(SummaryReportConfig { enabled: Some(true), interval_days: Some(7), output_file: Some("week.txt".to_string()) });
    let r = SummaryReporter::new(&c);
    assert!(r.enabled());
    assert!(r.report_text("d", 0, 0).contains("Last 7 day(s)"));
    assert_eq!(r.report_file_name(), "week.txt");
}

#[test]
fn screenshot_names_and_jobs() {
    assert_eq!(screenshot_dir("/logs"), "/logs/screenshots");
    assert_eq!(screenshot_file_name("2024-05-01_10-00-00"), "screenshot_2024-05-01_10-00-00.jpg");
    assert!(capture_one_screenshot("/logs", false, None).is_none());
    let job = capture_one_screenshot("/logs", true, Some((800, 600))).unwrap();
    assert_eq!(job.dir, "/logs/screenshots");
    assert_eq!(job.resolution, Some((800, 600)));
}

#[test]
fn frame_errors() {
    assert_eq!(render_frame(vec![], 0, 1, None).err(), Some(CaptureError::EmptyFrame));
    assert_eq!(render_frame(vec![0; 16], 2, 2, Some((0, 3))).err(), Some(CaptureError::EmptyFrame));
    assert_eq!(render_frame(vec![0; 15], 2, 2, None).err(), Some(CaptureError::BadBuffer));
    assert_eq!(
        render_frame(vec![0; 16], 2, 2, Some((u32::MAX, u32::MAX))).err(),
        Some(CaptureError::TooLarge)
    );
    assert_eq!(render_frame(vec![0; 70000 * 4], 70000, 1, None).err(), Some(CaptureError::Encode));
}

#[test]
fn frame_encodes_as_jpeg() {
    let px: Vec<u8> = (0..(8 * 8 * 4)).map(|i| (i * 7 % 256) as u8).collect();
    let full = render_frame(px.clone(), 8, 8, None).unwrap();
    assert_eq!(&full[..2], &[0xFF, 0xD8]);
    assert_eq!(&full[full.len() - 2..], &[0xFF, 0xD9]);
    let small = render_frame(px.clone(), 8, 8, Some((2, 2))).unwrap();
    assert_eq!(&small[..2], &[0xFF, 0xD8]);
    assert_ne!(full, small);
    let decoded = image::load_from_memory(&small).unwrap();
    assert_eq!((decoded.width(), decoded.height()), (2, 2));
    let mut longer = px.clone();
    longer.extend_from_slice(&[9; 12]);
    assert_eq!(render_frame(longer, 8, 8, None).unwrap(), full);
}

#[test]
fn window_labels() {
    assert_eq!(format_window_label("code", "main.rs"), "App: code | Title: main.rs");
    assert_eq!(labelled_window("notepad.exe", "notes.txt").as_deref(), Some("App: notepad.exe | Title: notes.txt"));
    assert!(labelled_window("notepad.exe", "notepad.exe").is_none());
    assert!(labelled_window("notepad.exe", "").is_none());
}

#[test]
fn text_helpers() {
    assert_eq!(decimal(0), "0");
    assert_eq!(decimal(1234567890123), "1234567890123");
    assert_eq!(decimal(u64::MAX), u64::MAX.to_string());
    let t: String = trim(&"  a b \t\n".chars().collect()).into_iter().collect();
    assert_eq!(t, "a b");
    assert!(matches!(TrayMessage::Quit, TrayMessage::Quit));
}
