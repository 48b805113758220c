use evdev::{AbsoluteAxisType, EventType, Key};
use s10_ringctrl::remap::{
    ABS_MT_POSITION_X, ABS_MT_POSITION_Y, ABS_MT_TRACKING_ID, ABS_X, ABS_Y, EV_ABS, EV_KEY, KEY_VOLUMEDOWN,
};

#[test]
fn check_abs_mt_tracking_id() {
    println!("ABS_MT_TRACKING_ID code = {}", AbsoluteAxisType::ABS_MT_TRACKING_ID.0);
    assert_eq!(ABS_MT_TRACKING_ID, AbsoluteAxisType::ABS_MT_TRACKING_ID.0);
}

#[test]
fn event_codes_match_evdev() {
    assert_eq!(EV_KEY, EventType::KEY.0);
    assert_eq!(EV_ABS, EventType::ABSOLUTE.0);
    assert_eq!(ABS_X, AbsoluteAxisType::ABS_X.0);
    assert_eq!(ABS_Y, AbsoluteAxisType::ABS_Y.0);
    assert_eq!(ABS_MT_POSITION_X, AbsoluteAxisType::ABS_MT_POSITION_X.0);
    assert_eq!(ABS_MT_POSITION_Y, AbsoluteAxisType::ABS_MT_POSITION_Y.0);
    assert_eq!(KEY_VOLUMEDOWN, Key::KEY_VOLUMEDOWN.code());
}
