use keyboard_statistics::config::{place_popup, ScreenPoint};
use keyboard_statistics::config::monitor_index;
use keyboard_statistics::config::{id_or_default, AppConfig, ConfigManager, PopupPosition};
use keyboard_statistics::event::KeyEvent;
use keyboard_statistics::logger::LogLevel;

#[test]
fn default_settings() {
    let c = AppConfig::default();
    assert!(c.show_exit_confirm);
    assert!(c.minimize_on_close);
    assert!(c.recording_enabled);
    assert!(!c.autostart_enabled);
    let p = PopupPosition::default();
    assert_eq!((p.x, p.y), (80, 500));
    assert!(p.monitor_id.is_none());
}

#[test]
fn config_manager_keeps_settings_and_path() {
    let mut m = ConfigManager::from_config(AppConfig::default(), "/tmp/config.json".to_string());
    assert!(m.get_config().recording_enabled);
    let mut c = m.get_config().clone();
    c.recording_enabled = false;
    m.set_config(c);
    assert!(!m.get_config().recording_enabled);
    assert_eq!(m.config_path(), "/tmp/config.json");
}

#[test]
fn monitor_name_defaults_to_primary() {
    assert_eq!(id_or_default(Some("DISPLAY2")), "DISPLAY2");
    assert_eq!(id_or_default(None), "主显示器");
}

#[test]
fn log_levels_by_name() {
    assert_eq!(LogLevel::Warning.as_str(), "WARNING");
    assert_eq!(LogLevel::Debug.as_str(), "DEBUG");
    assert_eq!(LogLevel::from_str("warn"), Some(LogLevel::Warning));
    assert_eq!(LogLevel::from_str("Err"), Some(LogLevel::Error));
    assert_eq!(LogLevel::from_str("info"), Some(LogLevel::Info));
    assert_eq!(LogLevel::from_str("trace"), None);
    assert_eq!(LogLevel::from_upper("info"), None);
}

#[test]
fn key_event_keeps_its_fields() {
    let e = KeyEvent::new("A".to_string(), 1234, "code".to_string(), false);
    assert_eq!(e.key_code, "A");
    assert_eq!(e.timestamp, 1234);
    assert_eq!(e.app_name, "code");
    assert!(!e.is_modifier);
}

#[test]
fn monitor_ids_name_an_index() {
    assert_eq!(monitor_index("monitor_0", 2), Some(0));
    assert_eq!(monitor_index("monitor_1", 2), Some(1));
    assert_eq!(monitor_index("monitor_2", 2), None);
    assert_eq!(monitor_index("monitor_", 2), None);
    assert_eq!(monitor_index("monitor_x", 2), None);
    assert_eq!(monitor_index("screen_1", 2), None);
    assert_eq!(monitor_index("monitor_12", 20), Some(12));
    assert_eq!(monitor_index("monitor_99999999999999999999999999", 20), None);
    assert_eq!(monitor_index("monitor_0", 0), None);
}

#[test]
fn popup_stays_on_its_monitor() {
    assert_eq!(place_popup(80, 500, 0, 0, 1920, 1080, 200, 100), ScreenPoint { x: 80, y: 500 });
    assert_eq!(place_popup(1900, 1070, 0, 0, 1920, 1080, 200, 100), ScreenPoint { x: 1720, y: 980 });
    assert_eq!(place_popup(-50, -5, 1920, 0, 1280, 1024, 200, 100), ScreenPoint { x: 1920, y: 0 });
    assert_eq!(place_popup(10, 10, 0, 0, 100, 100, 200, 200), ScreenPoint { x: 0, y: 0 });
}
