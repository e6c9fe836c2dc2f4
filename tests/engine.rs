use activity_logger::engine::{is_garbage_title, keycode_to_char, Engine, EngineAction, Key};

fn key_inputs(acts: &[EngineAction]) -> Vec<String> {
    acts.iter()
        .filter_map(|a| match a {
            EngineAction::KeyEntry { input, .. } => Some(input.clone()),
            _ => None,
        })
        .collect()
}

fn titles(acts: &[EngineAction]) -> Vec<String> {
    acts.iter()
        .filter_map(|a| match a {
            EngineAction::WindowEntry { title } => Some(title.clone()),
            _ => None,
        })
        .collect()
}

#[test]
fn typing_then_pause_logs_one_entry() {
    let mut e = Engine::new(2, false, 0);
    assert!(e.poll(0, &vec![Key::H], None).is_empty());
    assert!(e.poll(100, &vec![], None).is_empty());
    assert!(e.poll(200, &vec![Key::I], None).is_empty());
    assert!(e.poll(300, &vec![], None).is_empty());
    assert_eq!(e.pending_input(), "hi");
    assert!(e.poll(2000, &vec![], None).is_empty());
    let acts = e.poll(3300, &vec![], None);
    assert_eq!(key_inputs(&acts), vec!["hi".to_string()]);
    assert_eq!(acts.len(), 1);
    assert_eq!(e.pending_input(), "");
    assert!(e.poll(6400, &vec![], None).is_empty());
}

#[test]
fn changes_closer_than_timeout_never_flush() {
    let mut e = Engine::new(2, false, 0);
    let mut t: u64 = 0;
    let sets = [vec![Key::A], vec![], vec![Key::B], vec![Key::B, Key::C], vec![Key::C], vec![]];
    for round in 0..4 {
        for s in sets.iter() {
            let acts = e.poll(t, s, None);
            assert!(key_inputs(&acts).is_empty(), "round {round} at {t}");
            t += 1500;
        }
    }
    assert_eq!(e.pending_input(), "abcabcabcabc");
}

#[test]
fn pause_of_exactly_timeout_waits_for_next_poll() {
    let mut e = Engine::new(2, false, 0);
    e.poll(0, &vec![Key::X], None);
    assert!(e.poll(2000, &vec![Key::X], None).is_empty());
    assert_eq!(key_inputs(&e.poll(2001, &vec![Key::X], None)), vec!["x".to_string()]);
}

#[test]
fn enter_flushes_immediately() {
    let mut e = Engine::new(60, false, 0);
    e.poll(0, &vec![Key::O], None);
    e.poll(10, &vec![], None);
    e.poll(20, &vec![Key::K], None);
    let acts = e.poll(30, &vec![Key::K, Key::Enter], None);
    assert_eq!(key_inputs(&acts), vec!["ok".to_string()]);
    assert_eq!(e.pending_input(), "");
}

#[test]
fn enter_on_empty_buffer_does_nothing() {
    let mut e = Engine::new(1, true, 0);
    assert!(e.poll(5, &vec![Key::Enter], None).is_empty());
    assert!(e.poll(5000, &vec![], None).is_empty());
}

#[test]
fn held_key_is_not_repeated() {
    let mut e = Engine::new(5, false, 0);
    for t in 0..10u64 {
        e.poll(t * 10, &vec![Key::Z], None);
    }
    assert_eq!(e.pending_input(), "z");
}

#[test]
fn shift_selects_upper_variant() {
    let mut e = Engine::new(5, false, 0);
    e.poll(0, &vec![Key::LShift], None);
    e.poll(10, &vec![Key::LShift, Key::H], None);
    e.poll(20, &vec![Key::LShift], None);
    e.poll(30, &vec![Key::LShift, Key::Key1], None);
    e.poll(40, &vec![], None);
    e.poll(50, &vec![Key::Space], None);
    assert_eq!(e.pending_input(), "H! ");
}

#[test]
fn key_table() {
    assert_eq!(keycode_to_char(&Key::A, false), Some('a'));
    assert_eq!(keycode_to_char(&Key::A, true), Some('A'));
    assert_eq!(keycode_to_char(&Key::Key9, true), Some('('));
    assert_eq!(keycode_to_char(&Key::Apostrophe, true), Some('"'));
    assert_eq!(keycode_to_char(&Key::BackSlash, false), Some('\\'));
    assert_eq!(keycode_to_char(&Key::Space, true), Some(' '));
    assert_eq!(keycode_to_char(&Key::Enter, false), None);
    assert_eq!(keycode_to_char(&Key::Other(7), false), None);
}

#[test]
fn capture_comes_before_the_record() {
    let mut e = Engine::new(1, true, 0);
    e.poll(0, &vec![Key::Q], None);
    let acts = e.poll(10, &vec![Key::Q, Key::Enter], Some("Editor".to_string()));
    assert_eq!(acts.len(), 3);
    assert!(matches!(acts[0], EngineAction::Capture));
    assert!(matches!(acts[1], EngineAction::KeyEntry { .. }));
    assert!(matches!(acts[2], EngineAction::WindowEntry { .. }));
}

#[test]
fn record_carries_previous_window() {
    let mut e = Engine::new(1, false, 0);
    e.poll(0, &vec![], Some("Editor".to_string()));
    e.poll(10, &vec![Key::W], None);
    let acts = e.poll(20, &vec![Key::W, Key::Enter], Some("Browser".to_string()));
    match &acts[0] {
        EngineAction::KeyEntry { window, input } => {
            assert_eq!(window, "Editor");
            assert_eq!(input, "w");
        }
        _ => panic!("expected a key entry"),
    }
    assert_eq!(titles(&acts), vec!["Browser".to_string()]);
}

#[test]
fn window_changes_are_deduplicated() {
    let mut e = Engine::new(2, true, 0);
    assert_eq!(titles(&e.poll(0, &vec![], Some("Editor".to_string()))), vec!["Editor".to_string()]);
    assert!(e.poll(10, &vec![], Some("Editor".to_string())).is_empty());
    let acts = e.poll(20, &vec![], Some("Browser".to_string()));
    assert_eq!(titles(&acts), vec!["Browser".to_string()]);
    assert_eq!(acts.len(), 1);
    assert!(e.poll(30, &vec![], None).is_empty());
    assert_eq!(e.last_window(), "Browser");
}

#[test]
fn noise_labels_are_dropped() {
    let mut e = Engine::new(2, false, 0);
    for label in ["UNKNOWN", "foo.exe", "!!!", "", "   ", "Setup.EXE"] {
        assert!(e.poll(0, &vec![], Some(label.to_string())).is_empty(), "{label}");
    }
    assert_eq!(e.last_window(), "");
}

#[test]
fn noise_filter() {
    assert!(is_garbage_title("unknown"));
    assert!(is_garbage_title("Unknown"));
    assert!(is_garbage_title("installer.exe"));
    assert!(is_garbage_title("-- ?? --"));
    assert!(is_garbage_title(""));
    assert!(!is_garbage_title("unknown file"));
    assert!(!is_garbage_title("App: code | Title: main.rs"));
    assert!(!is_garbage_title("Ünïcode"));
}
