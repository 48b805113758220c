use s10_ringctrl::action::{ActionExecutor, ActionPlan};
use s10_ringctrl::config::Config;
use s10_ringctrl::gesture::{Gesture, GestureDetector, TouchEvent};
use s10_ringctrl::remap::{
    handle_consumer_event, handle_touch_event, parse_repeat_key, touch_event, InputEvent, Reaction, Session,
    ABS_MT_POSITION_X, ABS_MT_POSITION_Y, ABS_MT_TRACKING_ID, ABS_X, ABS_Y, EV_ABS, EV_KEY, KEY_VOLUMEDOWN,
};
use s10_ringctrl::strmap::StrMap;

fn ev(event_type: u16, code: u16, value: i32) -> InputEvent {
    InputEvent { event_type, code, value }
}

#[test]
fn repeat_key_prefixes() {
    assert_eq!(parse_repeat_key("20W"), (20, "W"));
    assert_eq!(parse_repeat_key("A"), (1, "A"));
    assert_eq!(parse_repeat_key("0W"), (1, "W"));
    assert_eq!(parse_repeat_key("99999999999W"), (1, "W"));
    assert_eq!(parse_repeat_key("4294967295X"), (4294967295, "X"));
    assert_eq!(parse_repeat_key("12"), (12, ""));
    assert_eq!(parse_repeat_key(""), (1, ""));
    assert_eq!(parse_repeat_key("3KEY_2"), (3, "KEY_2"));
}

#[test]
fn touch_events_from_input_events() {
    assert_eq!(touch_event(&ev(EV_ABS, ABS_MT_TRACKING_ID, 14)), Some(TouchEvent::TrackingStart));
    assert_eq!(touch_event(&ev(EV_ABS, ABS_MT_TRACKING_ID, 0)), Some(TouchEvent::TrackingStart));
    assert_eq!(touch_event(&ev(EV_ABS, ABS_MT_TRACKING_ID, -1)), Some(TouchEvent::TrackingEnd));
    assert_eq!(touch_event(&ev(EV_ABS, ABS_MT_POSITION_X, 700)), Some(TouchEvent::Position { x: Some(700), y: None }));
    assert_eq!(touch_event(&ev(EV_ABS, ABS_X, 7)), Some(TouchEvent::Position { x: Some(7), y: None }));
    assert_eq!(touch_event(&ev(EV_ABS, ABS_MT_POSITION_Y, 500)), Some(TouchEvent::Position { x: None, y: Some(500) }));
    assert_eq!(touch_event(&ev(EV_ABS, ABS_Y, 5)), Some(TouchEvent::Position { x: None, y: Some(5) }));
    assert_eq!(touch_event(&ev(EV_KEY, 0x14a, 1)), None);
    assert_eq!(touch_event(&ev(EV_ABS, 0x2f, 0)), None);
}

#[test]
fn captured_swipe_sequence() {
    let mut d = GestureDetector::new(80, 500);
    let events = [
        ev(EV_ABS, ABS_MT_TRACKING_ID, 14),
        ev(EV_ABS, ABS_MT_POSITION_X, 700),
        ev(EV_ABS, ABS_MT_POSITION_Y, 500),
        ev(EV_KEY, 0x14a, 1),
        ev(EV_ABS, ABS_X, 700),
        ev(EV_ABS, ABS_Y, 500),
        ev(0, 0, 0),
        ev(EV_ABS, ABS_MT_POSITION_Y, 800),
        ev(EV_ABS, ABS_Y, 800),
    ];
    for e in events.iter() {
        assert_eq!(handle_touch_event(e, &mut d), None);
    }
    assert_eq!(handle_touch_event(&ev(EV_ABS, ABS_MT_TRACKING_ID, -1), &mut d), Some(Gesture::Up));
}

fn config_with(pairs: &[(&str, &str)]) -> Config {
    let mut cfg = Config::default();
    let mut m = StrMap::new();
    for (k, v) in pairs {
        m.insert(k.to_string(), v.to_string());
    }
    cfg.mappings = m;
    cfg
}

fn exec() -> ActionExecutor {
    ActionExecutor::new(true, StrMap::new(), None, StrMap::new())
}

#[test]
fn power_key_in_remap_and_debug_mode() {
    let cfg = config_with(&[("POWER", "key:Escape")]);
    let e = exec();
    match handle_consumer_event(&ev(EV_KEY, KEY_VOLUMEDOWN, 1), true, &cfg, &e) {
        Reaction::Carry { name, plan: ActionPlan::Run(v) } => {
            assert_eq!(name, "POWER");
            assert_eq!(v[0].args, vec!["-k".to_string(), "Escape".to_string()]);
        }
        _ => panic!("expected the power action"),
    }
    assert!(matches!(handle_consumer_event(&ev(EV_KEY, KEY_VOLUMEDOWN, 0), true, &cfg, &e), Reaction::Nothing));
    assert!(matches!(handle_consumer_event(&ev(EV_ABS, KEY_VOLUMEDOWN, 1), true, &cfg, &e), Reaction::Nothing));
    match handle_consumer_event(&ev(EV_KEY, KEY_VOLUMEDOWN, 2), false, &cfg, &e) {
        Reaction::Report(line) => assert_eq!(line, "[DEBUG] [CONSUMER] REPEAT POWER"),
        _ => panic!("expected a report"),
    }
    match handle_consumer_event(&ev(EV_KEY, 115, 1), false, &cfg, &e) {
        Reaction::Report(line) => assert_eq!(line, "[DEBUG] [CONSUMER] PRESS KEY_VOLUMEUP"),
        _ => panic!("expected a report"),
    }
}

#[test]
fn profiles_are_listed_once() {
    let mut cfg = Config::default();
    cfg.alt_config = Some("b.toml".to_string());
    cfg.alt_configs = vec!["b.toml".to_string(), "c.toml".to_string(), "a.toml".to_string(), "c.toml".to_string()];
    let s = Session::new("a.toml", &cfg, true);
    assert_eq!(s.profiles(), &vec!["a.toml".to_string(), "b.toml".to_string(), "c.toml".to_string()]);
    assert_eq!(s.profile_index(), 0);
}

#[test]
fn mod_tap_cycles_profiles() {
    let mut cfg = config_with(&[("TAP", "text:play")]);
    cfg.alt_configs = vec!["s10-ringctrl-hyprland.toml".to_string(), "s10-ringctrl-gaming.toml".to_string()];
    let mut s = Session::new("s10-ringctrl.toml", &cfg, true);
    let mut e = exec();
    let expected = [(1, "s10-ringctrl-hyprland.toml"), (2, "s10-ringctrl-gaming.toml"), (0, "s10-ringctrl.toml")];
    for (i, p) in expected {
        match s.on_gesture(Gesture::Tap, Some(800), &cfg, &mut e) {
            Reaction::SwitchProfile { index, path } => {
                assert_eq!(index, i);
                assert_eq!(path, p);
            }
            _ => panic!("expected a profile switch"),
        }
    }
    assert_eq!(e.repeat_id(), 3);
    match s.on_gesture(Gesture::Tap, Some(300), &cfg, &mut e) {
        Reaction::Carry { name, plan: ActionPlan::Run(v) } => {
            assert_eq!(name, "TAP");
            assert_eq!(v[0].args, vec!["play".to_string()]);
        }
        _ => panic!("expected the play action"),
    }
}

#[test]
fn mod_tap_with_one_profile_is_a_plain_tap() {
    let cfg = config_with(&[("TAP", "key:KEY_SPACE")]);
    let mut s = Session::new("only.toml", &cfg, true);
    let mut e = exec();
    match s.on_gesture(Gesture::Tap, Some(800), &cfg, &mut e) {
        Reaction::Carry { name, plan: ActionPlan::Run(v) } => {
            assert_eq!(name, "TAP");
            assert_eq!(v[0].args, vec!["-k".to_string(), "SPACE".to_string()]);
        }
        _ => panic!("expected the tap action"),
    }
}

#[test]
fn swipe_key_action_repeats() {
    let cfg = config_with(&[("UP", "key:20W"), ("DOWN", "command:true")]);
    let mut s = Session::new("gaming.toml", &cfg, true);
    let mut e = exec();
    match s.on_gesture(Gesture::Up, None, &cfg, &mut e) {
        Reaction::Repeat { name, repeat: Some(p) } => {
            assert_eq!(name, "UP");
            assert_eq!(p.count, 20);
            assert_eq!(p.key, "W");
            assert_eq!(p.id, 2);
        }
        _ => panic!("expected a repeat"),
    }
    assert_eq!(e.repeat_id(), 2);
    assert!(matches!(s.on_gesture(Gesture::Down, None, &cfg, &mut e), Reaction::Carry { .. }));
    assert!(matches!(s.on_gesture(Gesture::Left, None, &cfg, &mut e), Reaction::Nothing));
    assert_eq!(e.repeat_id(), 4);
}

#[test]
fn debug_mode_reports_gestures() {
    let cfg = Config::default();
    let mut s = Session::new("a.toml", &cfg, false);
    let mut e = exec();
    match s.on_gesture(Gesture::DoubleTap, None, &cfg, &mut e) {
        Reaction::Report(line) => assert_eq!(line, "[DEBUG] >>> DOUBLE_TAP DETECTED <<<"),
        _ => panic!("expected a report"),
    }
    match s.on_consumer(&ev(EV_KEY, KEY_VOLUMEDOWN, 1), &cfg, &mut e) {
        Reaction::Report(line) => assert_eq!(line, "[DEBUG] [CONSUMER] PRESS POWER"),
        _ => panic!("expected a report"),
    }
    assert_eq!(e.repeat_id(), 2);
}
