use s10_ringctrl::config::{default_consumer, default_threshold, default_touch, Config};
use s10_ringctrl::strmap::StrMap;

#[test]
fn test_default_config() {
    let cfg = Config::default();
    assert_eq!(cfg.device.touch, "/dev/input/event22");
    assert_eq!(cfg.gesture.threshold, 80);
    assert!(cfg.mappings.contains_key("UP"));
}

#[test]
fn default_config_maps_the_four_swipes() {
    let cfg = Config::default();
    assert_eq!(cfg.device.consumer, "/dev/input/event23");
    assert_eq!(cfg.mappings.len(), 4);
    assert_eq!(cfg.get_mapping("UP"), Some("command:hyprctl dispatch cyclenext prev"));
    assert_eq!(cfg.get_mapping("DOWN"), Some("command:hyprctl dispatch cyclenext"));
    assert_eq!(cfg.get_mapping("LEFT"), Some("command:hyprctl dispatch workspace e-1"));
    assert_eq!(cfg.get_mapping("RIGHT"), Some("command:hyprctl dispatch workspace e+1"));
    assert_eq!(cfg.get_mapping("TAP"), None);
    assert_eq!(cfg.get_mapping("up"), None);
    assert_eq!(cfg.alt_config, None);
    assert!(cfg.alt_configs.is_empty());
}

#[test]
fn default_field_values() {
    assert_eq!(default_touch(), "/dev/input/event22");
    assert_eq!(default_consumer(), "/dev/input/event23");
    assert_eq!(default_threshold(), 80);
}

#[test]
fn map_insert_then_get() {
    let mut m = StrMap::new();
    assert_eq!(m.len(), 0);
    assert_eq!(m.get("TAP"), None);
    m.insert("TAP".to_string(), "text:hi".to_string());
    m.insert("POWER".to_string(), "key:KEY_ESC".to_string());
    assert_eq!(m.get("TAP"), Some("text:hi"));
    m.insert("TAP".to_string(), "text:bye".to_string());
    assert_eq!(m.get("TAP"), Some("text:bye"));
    assert_eq!(m.get("POWER"), Some("key:KEY_ESC"));
    assert_eq!(m.len(), 2);
    assert_eq!(m.entry(0), ("TAP", "text:bye"));
    assert_eq!(m.entry(1), ("POWER", "key:KEY_ESC"));
    let copy = m.duplicate();
    assert_eq!(copy.get("POWER"), Some("key:KEY_ESC"));
    assert_eq!(copy.len(), 2);
}
