use keyboard_statistics::keys::{categorize_key, is_modifier, key_to_string, KeyCategory};

#[test]
fn raw_names_map_to_symbols() {
    assert_eq!(key_to_string("ControlRight"), "Ctrl");
    assert_eq!(key_to_string("MetaLeft"), "Win");
    assert_eq!(key_to_string("AltGr"), "Alt");
    assert_eq!(key_to_string("Return"), "Enter");
    assert_eq!(key_to_string("Escape"), "Esc");
    assert_eq!(key_to_string("UpArrow"), "↑");
    assert_eq!(key_to_string("KeyQ"), "Q");
    assert_eq!(key_to_string("Num7"), "7");
    assert_eq!(key_to_string("SemiColon"), ";");
    assert_eq!(key_to_string("BackSlash"), "\\");
    assert_eq!(key_to_string("Numpad3"), "3");
    assert_eq!(key_to_string("KpMultiply"), "*");
    assert_eq!(key_to_string("NumpadEnter"), "Enter");
    assert_eq!(key_to_string("Unknown(12)"), "5");
    assert_eq!(key_to_string("NumLock"), "NumLock");
    assert_eq!(key_to_string("F5"), "F5");
    assert_eq!(key_to_string("Unknown(255)"), "Unknown(255)");
}

#[test]
fn modifiers_are_recognised() {
    assert!(is_modifier("Ctrl"));
    assert!(is_modifier("Win"));
    assert!(!is_modifier("A"));
    assert!(!is_modifier("Ctrl+A"));
}

#[test]
fn categories_follow_rule_order() {
    assert_eq!(categorize_key("a"), KeyCategory::Letter);
    assert_eq!(categorize_key("Z"), KeyCategory::Letter);
    assert_eq!(categorize_key("7"), KeyCategory::Digit);
    assert_eq!(categorize_key(";"), KeyCategory::Symbol);
    assert_eq!(categorize_key("Ctrl+C"), KeyCategory::Modifier);
    assert_eq!(categorize_key("Shift"), KeyCategory::Modifier);
    assert_eq!(categorize_key("F12"), KeyCategory::Function);
    assert_eq!(categorize_key("F"), KeyCategory::Letter);
    assert_eq!(categorize_key("Fn"), KeyCategory::Other);
    assert_eq!(categorize_key("↑"), KeyCategory::Navigation);
    assert_eq!(categorize_key("PageDown"), KeyCategory::Navigation);
    assert_eq!(categorize_key("Backspace"), KeyCategory::Editing);
    assert_eq!(categorize_key("Esc"), KeyCategory::Other);
}
