use keyboard_statistics::capture::KeyboardMonitor;

fn held(m: &KeyboardMonitor) -> Vec<String> {
    m.held_keys()
}

#[test]
fn chord_with_held_modifier_accumulates() {
    let mut m = KeyboardMonitor::new();
    assert_eq!(m.on_key_press("ControlLeft"), Some("Ctrl".to_string()));
    assert_eq!(m.on_key_press("KeyA"), Some("Ctrl+A".to_string()));
    assert_eq!(m.on_key_press("KeyB"), Some("Ctrl+A+B".to_string()));
}

#[test]
fn plain_keys_after_release_are_separate_events() {
    let mut m = KeyboardMonitor::new();
    assert_eq!(m.on_key_press("KeyA"), Some("A".to_string()));
    m.on_key_release("KeyA");
    assert_eq!(m.on_key_press("KeyB"), Some("B".to_string()));
}

#[test]
fn plain_key_without_release_starts_new_chord() {
    let mut m = KeyboardMonitor::new();
    assert_eq!(m.on_key_press("KeyA"), Some("A".to_string()));
    assert_eq!(m.on_key_press("KeyB"), Some("B".to_string()));
    assert_eq!(held(&m), vec!["B".to_string()]);
}

#[test]
fn auto_repeat_emits_nothing() {
    let mut m = KeyboardMonitor::new();
    assert_eq!(m.on_key_press("ShiftLeft"), Some("Shift".to_string()));
    assert_eq!(m.on_key_press("ShiftLeft"), None);
    assert_eq!(m.on_key_press("ShiftRight"), None);
    assert_eq!(held(&m), vec!["Shift".to_string()]);
}

#[test]
fn release_of_key_not_held_changes_nothing() {
    let mut m = KeyboardMonitor::new();
    m.on_key_press("ControlLeft");
    m.on_key_press("KeyA");
    let before = held(&m);
    m.on_key_release("KeyZ");
    assert_eq!(held(&m), before);
    m.release(&"Q".to_string());
    assert_eq!(held(&m), vec!["Ctrl".to_string(), "A".to_string()]);
}

#[test]
fn release_keeps_press_order_of_the_rest() {
    let mut m = KeyboardMonitor::new();
    m.on_key_press("ControlLeft");
    m.on_key_press("ShiftLeft");
    m.on_key_press("KeyA");
    m.on_key_release("ControlLeft");
    assert_eq!(held(&m), vec!["Shift".to_string(), "A".to_string()]);
    assert_eq!(m.on_key_press("KeyB"), Some("Shift+A+B".to_string()));
}

#[test]
fn stopped_monitor_ignores_signals() {
    let mut m = KeyboardMonitor::new();
    assert!(m.start());
    assert!(m.is_running());
    m.stop();
    assert_eq!(m.on_key_press("KeyA"), None);
    assert!(held(&m).is_empty());
    m.resume();
    assert_eq!(m.on_key_press("KeyA"), Some("A".to_string()));
    assert!(!m.start());
    m.listener_failed();
    assert!(!m.is_running());
}
