use s10_ringctrl::gesture::{Gesture, GestureDetector, TouchEvent};

#[test]
fn test_swipe_up() {
    let mut d = GestureDetector::new(80, 500);
    assert_eq!(d.feed(TouchEvent::TrackingStart), None);
    assert_eq!(d.feed(TouchEvent::Position { x: None, y: Some(500) }), None);
    assert_eq!(d.feed(TouchEvent::Position { x: None, y: Some(900) }), None);
    assert_eq!(d.feed(TouchEvent::TrackingEnd), Some(Gesture::Up));
}

#[test]
fn test_swipe_right() {
    let mut d = GestureDetector::new(80, 500);
    d.feed(TouchEvent::TrackingStart);
    d.feed(TouchEvent::Position { x: Some(700), y: None });
    d.feed(TouchEvent::Position { x: Some(500), y: None });
    assert_eq!(d.feed(TouchEvent::TrackingEnd), Some(Gesture::Right));
}

#[test]
fn test_tap() {
    let mut d = GestureDetector::new(80, 500);
    d.feed(TouchEvent::TrackingStart);
    assert_eq!(d.feed(TouchEvent::TrackingEnd), Some(Gesture::Tap));
}

#[test]
fn test_double_tap() {
    let mut d = GestureDetector::new(80, 500);
    d.feed(TouchEvent::TrackingStart);
    assert_eq!(d.feed(TouchEvent::TrackingEnd), Some(Gesture::Tap));
    d.feed(TouchEvent::TrackingStart);
    assert_eq!(d.feed(TouchEvent::TrackingEnd), Some(Gesture::DoubleTap));
}

#[test]
fn swipe_down_and_left() {
    let mut d = GestureDetector::new(80, 500);
    d.feed(TouchEvent::TrackingStart);
    d.feed(TouchEvent::Position { x: None, y: Some(900) });
    d.feed(TouchEvent::Position { x: None, y: Some(500) });
    assert_eq!(d.feed(TouchEvent::TrackingEnd), Some(Gesture::Down));
    d.feed(TouchEvent::TrackingStart);
    d.feed(TouchEvent::Position { x: Some(100), y: None });
    d.feed(TouchEvent::Position { x: Some(180), y: None });
    assert_eq!(d.feed(TouchEvent::TrackingEnd), Some(Gesture::Left));
}

#[test]
fn dominant_axis_decides_and_tie_is_vertical() {
    let mut d = GestureDetector::new(80, 500);
    d.feed(TouchEvent::TrackingStart);
    d.feed(TouchEvent::Position { x: Some(500), y: Some(500) });
    d.feed(TouchEvent::Position { x: Some(300), y: Some(590) });
    assert_eq!(d.feed(TouchEvent::TrackingEnd), Some(Gesture::Right));
    d.feed(TouchEvent::TrackingStart);
    d.feed(TouchEvent::Position { x: Some(500), y: Some(500) });
    d.feed(TouchEvent::Position { x: Some(600), y: Some(400) });
    assert_eq!(d.feed(TouchEvent::TrackingEnd), Some(Gesture::Down));
}

#[test]
fn move_below_threshold_is_a_tap() {
    let mut d = GestureDetector::new(80, 500);
    d.feed(TouchEvent::TrackingStart);
    d.feed(TouchEvent::Position { x: Some(500), y: Some(500) });
    d.feed(TouchEvent::Position { x: Some(579), y: Some(421) });
    assert_eq!(d.feed(TouchEvent::TrackingEnd), Some(Gesture::Tap));
    assert_eq!(d.last_position(), (Some(579), Some(421)));
}

#[test]
fn move_of_exactly_threshold_is_a_swipe() {
    let mut d = GestureDetector::new(80, 500);
    d.feed(TouchEvent::TrackingStart);
    d.feed(TouchEvent::Position { x: None, y: Some(500) });
    d.feed(TouchEvent::Position { x: None, y: Some(580) });
    assert_eq!(d.feed(TouchEvent::TrackingEnd), Some(Gesture::Up));
}

#[test]
fn first_coordinate_is_the_start() {
    let mut d = GestureDetector::new(80, 500);
    d.feed(TouchEvent::TrackingStart);
    d.feed(TouchEvent::Position { x: None, y: Some(100) });
    d.feed(TouchEvent::Position { x: None, y: Some(150) });
    d.feed(TouchEvent::Position { x: None, y: Some(200) });
    assert_eq!(d.feed(TouchEvent::TrackingEnd), Some(Gesture::Up));
}

#[test]
fn third_tap_after_double_tap_is_a_tap() {
    let mut d = GestureDetector::new(80, 500);
    for expected in [Gesture::Tap, Gesture::DoubleTap, Gesture::Tap] {
        d.feed(TouchEvent::TrackingStart);
        assert_eq!(d.feed(TouchEvent::TrackingEnd), Some(expected));
    }
}

#[test]
fn swipe_between_taps_breaks_double_tap() {
    let mut d = GestureDetector::new(80, 500);
    d.feed(TouchEvent::TrackingStart);
    assert_eq!(d.feed(TouchEvent::TrackingEnd), Some(Gesture::Tap));
    d.feed(TouchEvent::TrackingStart);
    d.feed(TouchEvent::Position { x: None, y: Some(0) });
    d.feed(TouchEvent::Position { x: None, y: Some(200) });
    assert_eq!(d.feed(TouchEvent::TrackingEnd), Some(Gesture::Up));
    d.feed(TouchEvent::TrackingStart);
    assert_eq!(d.feed(TouchEvent::TrackingEnd), Some(Gesture::Tap));
}

#[test]
fn taps_outside_the_window_stay_taps() {
    let mut d = GestureDetector::new(80, 500);
    assert_eq!(d.feed_at(TouchEvent::TrackingStart, 0), None);
    assert_eq!(d.feed_at(TouchEvent::TrackingEnd, 1_000_000_000), Some(Gesture::Tap));
    d.feed_at(TouchEvent::TrackingStart, 0);
    assert_eq!(d.feed_at(TouchEvent::TrackingEnd, 1_500_000_000), Some(Gesture::Tap));
    d.feed_at(TouchEvent::TrackingStart, 0);
    assert_eq!(d.feed_at(TouchEvent::TrackingEnd, 1_999_999_999), Some(Gesture::DoubleTap));
}

#[test]
fn end_and_positions_while_idle_do_nothing() {
    let mut d = GestureDetector::new(80, 500);
    assert_eq!(d.feed(TouchEvent::Position { x: Some(1), y: Some(2) }), None);
    assert_eq!(d.feed(TouchEvent::TrackingEnd), None);
    assert_eq!(d.last_position(), (None, None));
}

#[test]
fn gesture_names() {
    assert_eq!(Gesture::Up.as_str(), "UP");
    assert_eq!(Gesture::Down.as_str(), "DOWN");
    assert_eq!(Gesture::Left.as_str(), "LEFT");
    assert_eq!(Gesture::Right.as_str(), "RIGHT");
    assert_eq!(Gesture::Tap.as_str(), "TAP");
    assert_eq!(Gesture::DoubleTap.as_str(), "DOUBLE_TAP");
}

#[test]
fn overflowing_displacement_is_reported() {
    let mut d = GestureDetector::new(80, 500);
    d.feed(TouchEvent::TrackingStart);
    d.feed(TouchEvent::Position { x: Some(i32::MIN), y: None });
    d.feed(TouchEvent::Position { x: Some(i32::MAX), y: None });
    assert!(!d.can_end());
    let mut e = GestureDetector::new(80, 500);
    e.feed(TouchEvent::TrackingStart);
    e.feed(TouchEvent::Position { x: Some(0), y: Some(1000) });
    assert!(e.can_end());
}
