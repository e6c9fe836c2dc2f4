use activity_logger::config::{Config, HotkeyConfig};
use activity_logger::hotkey::{is_combo_pressed, parse_hotkey_string, HotkeyAction, HotkeyBindings, HotkeyKey, HotkeyState};

#[test]
fn parse_bindings() {
    assert_eq!(
        parse_hotkey_string("Ctrl+Shift+P"),
        vec![HotkeyKey::ControlLeft, HotkeyKey::ShiftLeft, HotkeyKey::Letter('p')]
    );
    assert_eq!(parse_hotkey_string(" cmd + X "), vec![HotkeyKey::MetaLeft, HotkeyKey::Letter('x')]);
    assert_eq!(parse_hotkey_string("Win+alt"), vec![HotkeyKey::MetaLeft, HotkeyKey::Alt]);
    assert_eq!(parse_hotkey_string("Ctrl+F1+"), vec![HotkeyKey::ControlLeft]);
    assert_eq!(parse_hotkey_string(""), Vec::<HotkeyKey>::new());
}

#[test]
fn combo_check() {
    let combo = vec![HotkeyKey::ControlLeft, HotkeyKey::Letter('s')];
    assert!(is_combo_pressed(&vec![HotkeyKey::Letter('s'), HotkeyKey::ControlLeft], &combo));
    assert!(!is_combo_pressed(&vec![HotkeyKey::ControlLeft], &combo));
    assert!(is_combo_pressed(&vec![], &vec![]));
}

fn config_with(pause: &str, shot: &str) -> Config {
    Config {
        key_log_file: "k".to_string(),
        window_log_file: "w".to_string(),
        log_dir: "d".to_string(),
        inactivity_timeout_secs: 1,
        screenshot_enabled: None,
        screenshot_interval_secs: None,
        screenshot_resolution: None,
        hotkeys: Some(HotkeyConfig { pause_resume: Some(pause.to_string()), screenshot: Some(shot.to_string()) }),
        notification: None,
        summary_report: None,
    }
}

#[test]
fn bindings_fire_when_held() {
    let b = HotkeyBindings::from_config(&config_with("Ctrl+Shift+P", "Ctrl+Shift+S"));
    let mut st = HotkeyState::new();
    assert!(st.on_press(HotkeyKey::ControlLeft, &b).is_empty());
    assert!(st.on_press(HotkeyKey::ShiftLeft, &b).is_empty());
    assert_eq!(st.on_press(HotkeyKey::Letter('p'), &b), vec![HotkeyAction::PauseResume]);
    st.on_release(HotkeyKey::Letter('p'));
    assert_eq!(st.pressed(), vec![HotkeyKey::ControlLeft, HotkeyKey::ShiftLeft]);
    assert_eq!(st.on_press(HotkeyKey::Letter('s'), &b), vec![HotkeyAction::Screenshot]);
    assert_eq!(st.on_press(HotkeyKey::Letter('s'), &b), vec![HotkeyAction::Screenshot]);
    assert_eq!(st.pressed().len(), 3);
}

#[test]
fn unbound_config_never_fires() {
    let mut c = config_with("a", "b");
    c.hotkeys = None;
    let b = HotkeyBindings::from_config(&c);
    assert!(b.pause_resume.is_none() && b.screenshot.is_none());
    let mut st = HotkeyState::new();
    assert!(st.on_press(HotkeyKey::Letter('a'), &b).is_empty());
}
