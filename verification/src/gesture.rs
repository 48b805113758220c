use std::time::{Duration, Instant};
use vstd::prelude::*;

verus! {

/// A gesture recognised on the touch ring.
#[derive(Debug, Clone, Copy, PartialEq, Eq, Structural)]
pub enum Gesture {
    Up,
    Down,
    Left,
    Right,
    Tap,
    DoubleTap,
}

/// The mapping key under which a gesture is looked up in the configuration.
pub open spec fn gesture_name(g: Gesture) -> Seq<char> {
    match g {
        Gesture::Up => "UP"@,
        Gesture::Down => "DOWN"@,
        Gesture::Left => "LEFT"@,
        Gesture::Right => "RIGHT"@,
        Gesture::Tap => "TAP"@,
        Gesture::DoubleTap => "DOUBLE_TAP"@,
    }
}

impl Gesture {
    /// The mapping key of this gesture (`"UP"`, `"DOWN"`, `"LEFT"`, `"RIGHT"`, `"TAP"`, `"DOUBLE_TAP"`).
    pub fn as_str(&self) -> (r: &'static str)
        ensures
            r@ == gesture_name(*self),
    {
        match self {
            Gesture::Up => "UP",
            Gesture::Down => "DOWN",
            Gesture::Left => "LEFT",
            Gesture::Right => "RIGHT",
            Gesture::Tap => "TAP",
            Gesture::DoubleTap => "DOUBLE_TAP",
        }
    }
}

/// One step of a touch as reported by the touch device.
#[derive(Debug, Clone, Copy, PartialEq, Eq, Structural)]
pub enum TouchEvent {
    /// A finger touched the ring.
    TrackingStart,
    /// The finger left the ring.
    TrackingEnd,
    /// A new coordinate on one or both axes.
    Position { x: Option<i32>, y: Option<i32> },
}

/// Where the detector stands: between touches, or following one.
#[derive(Debug, Clone, Copy, PartialEq, Eq, Structural)]
pub enum State {
    Idle,
    Tracking {
        start_x: Option<i32>,
        start_y: Option<i32>,
        current_x: Option<i32>,
        current_y: Option<i32>,
    },
}

/// The mathematical state of a [`GestureDetector`]. Times are nanoseconds on the
/// detector's own monotonic clock.
pub struct DetectorView {
    pub threshold: i32,
    pub double_tap_ms: u64,
    pub state: State,
    pub last_tap: Option<u128>,
    pub last_position: (Option<i32>, Option<i32>),
}

/// Recognises swipes, taps and double taps from a stream of touch events.
pub struct GestureDetector {
    threshold: i32,
    double_tap_ms: u64,
    state: State,
    /// When the last tap that can still become a double tap ended.
    last_tap: Option<u128>,
    /// The coordinates at which the last touch ended.
    last_position: (Option<i32>, Option<i32>),
    /// Origin of the detector's clock.
    epoch: Instant,
}

// ----- specification -------------------------------------------------------

/// Displacement on one axis, when both its first and its last coordinate are known.
pub open spec fn displacement(start: Option<i32>, current: Option<i32>) -> Option<int> {
    match (start, current) {
        (Some(s), Some(c)) => Some(c - s),
        _ => None,
    }
}

pub open spec fn abs_int(v: int) -> int {
    if v < 0 { -v } else { v }
}

/// Magnitude of a displacement, 0 for an axis without one.
pub open spec fn magnitude(d: Option<int>) -> int {
    match d {
        Some(v) => abs_int(v),
        None => 0,
    }
}

/// The device's horizontal axis is mirrored: growing X is a swipe to the left.
pub open spec fn horizontal(dx: int) -> Gesture {
    if dx > 0 { Gesture::Left } else { Gesture::Right }
}

/// Growing Y is a swipe up.
pub open spec fn vertical(dy: int) -> Gesture {
    if dy > 0 { Gesture::Up } else { Gesture::Down }
}

/// The swipe that a finished touch makes, if it is one.
pub open spec fn swipe_of(state: State, threshold: i32) -> Option<Gesture> {
    match state {
        State::Idle => None,
        State::Tracking { start_x, start_y, current_x, current_y } => {
            let dx = displacement(start_x, current_x);
            let dy = displacement(start_y, current_y);
            let ax = magnitude(dx);
            let ay = magnitude(dy);
            if (dx is Some || dy is Some) && (ax >= threshold || ay >= threshold) {
                Some(
                    if dx is Some && dy is Some {
                        if ax > ay { horizontal(dx->0) } else { vertical(dy->0) }
                    } else if dx is Some {
                        horizontal(dx->0)
                    } else {
                        vertical(dy->0)
                    },
                )
            } else {
                None
            }
        },
    }
}

/// Time between two readings of the clock; a reading earlier than `since` counts as no time.
pub open spec fn elapsed(since: u128, now: u128) -> int {
    if now >= since { now - since } else { 0 }
}

/// Whether a tap ending at `now` completes a double tap.
pub open spec fn within_double_tap(last_tap: Option<u128>, now: u128, double_tap_ms: u64) -> bool {
    match last_tap {
        Some(t) => elapsed(t, now) < double_tap_ms * 1_000_000,
        None => false,
    }
}

/// A displacement that the detector can compute without overflow: `i32` holds it and its magnitude.
pub open spec fn axis_computable(start: Option<i32>, current: Option<i32>) -> bool {
    match displacement(start, current) {
        Some(d) => i32::MIN < d <= i32::MAX,
        None => true,
    }
}

/// Whether ending the touch in `state` computes its displacements without overflow.
pub open spec fn end_computable(state: State) -> bool {
    match state {
        State::Idle => true,
        State::Tracking { start_x, start_y, current_x, current_y } => axis_computable(
            start_x,
            current_x,
        ) && axis_computable(start_y, current_y),
    }
}

/// What the detector does with one event at clock reading `now`: the next state and the gesture recognised.
pub open spec fn step(m: DetectorView, event: TouchEvent, now: u128) -> (DetectorView, Option<Gesture>) {
    match event {
        TouchEvent::TrackingStart => (
            DetectorView {
                state: State::Tracking { start_x: None, start_y: None, current_x: None, current_y: None },
                ..m
            },
            None,
        ),
        TouchEvent::Position { x, y } => match m.state {
            State::Idle => (m, None),
            State::Tracking { start_x, start_y, current_x, current_y } => (
                DetectorView {
                    state: State::Tracking {
                        start_x: if start_x is None { x } else { start_x },
                        start_y: if start_y is None { y } else { start_y },
                        current_x: if x is Some { x } else { current_x },
                        current_y: if y is Some { y } else { current_y },
                    },
                    ..m
                },
                None,
            ),
        },
        TouchEvent::TrackingEnd => match m.state {
            State::Idle => (m, None),
            State::Tracking { start_x, start_y, current_x, current_y } => {
                let ended = DetectorView {
                    state: State::Idle,
                    last_position: (current_x, current_y),
                    ..m
                };
                match swipe_of(m.state, m.threshold) {
                    Some(g) => (DetectorView { last_tap: None, ..ended }, Some(g)),
                    None => if within_double_tap(m.last_tap, now, m.double_tap_ms) {
                        (DetectorView { last_tap: None, ..ended }, Some(Gesture::DoubleTap))
                    } else {
                        (DetectorView { last_tap: Some(now), ..ended }, Some(Gesture::Tap))
                    },
                }
            },
        },
    }
}

/// Whether `step` is defined for this event, that is, computes without overflow.
pub open spec fn step_defined(m: DetectorView, event: TouchEvent) -> bool {
    event is TrackingEnd ==> end_computable(m.state)
}

// ----- clock -----------------------------------------------------------------

#[verifier::external_type_specification]
#[verifier::external_body]
pub struct ExInstant(Instant);

/// Calls `std::time::Instant::now`. Nothing is stated of the instant returned.
#[verifier::external_body]
fn clock_now() -> Instant {
    Instant::now()
}

/// Calls `std::time::Instant::elapsed`. The time elapsed depends on when it is called; nothing is stated of it.
#[verifier::external_body]
fn clock_elapsed(epoch: &Instant) -> Duration {
    epoch.elapsed()
}

/// Calls `std::time::Duration::as_nanos`. Nothing is stated of the count, as a `Duration` is opaque here.
#[verifier::external_body]
fn duration_nanos(d: &Duration) -> u128 {
    d.as_nanos()
}

// ----- implementation ------------------------------------------------------

impl View for GestureDetector {
    type V = DetectorView;

    closed spec fn view(&self) -> DetectorView {
        DetectorView {
            threshold: self.threshold,
            double_tap_ms: self.double_tap_ms,
            state: self.state,
            last_tap: self.last_tap,
            last_position: self.last_position,
        }
    }
}

fn axis_delta(start: Option<i32>, current: Option<i32>) -> (r: (bool, i32, i32))
    requires
        axis_computable(start, current),
    ensures
        r.0 == displacement(start, current) is Some,
        r.0 ==> r.1 == displacement(start, current)->0,
        !r.0 ==> r.1 == 0,
        r.2 == magnitude(displacement(start, current)),
{
    match (start, current) {
        (Some(s), Some(c)) => {
            let d = c - s;
            let a = if d < 0 { -d } else { d };
            (true, d, a)
        },
        _ => (false, 0, 0),
    }
}

impl GestureDetector {
    /// A detector that takes a move of at least `threshold` on one axis for a swipe, and two
    /// taps less than `double_tap_ms` milliseconds apart for a double tap.
    pub fn new(threshold: i32, double_tap_ms: u64) -> (r: Self)
        ensures
            r@ == (DetectorView {
                threshold,
                double_tap_ms,
                state: State::Idle,
                last_tap: None,
                last_position: (None, None),
            }),
    {
        GestureDetector {
            threshold,
            double_tap_ms,
            state: State::Idle,
            last_tap: None,
            last_position: (None, None),
            epoch: clock_now(),
        }
    }

    /// Whether ending the current touch computes its displacements without overflow.
    pub fn can_end(&self) -> (r: bool)
        ensures
            r == end_computable(self@.state),
    {
        match self.state {
            State::Idle => true,
            State::Tracking { start_x, start_y, current_x, current_y } => {
                Self::axis_ok(start_x, current_x) && Self::axis_ok(start_y, current_y)
            },
        }
    }

    fn axis_ok(start: Option<i32>, current: Option<i32>) -> (r: bool)
        ensures
            r == axis_computable(start, current),
    {
        match (start, current) {
            (Some(s), Some(c)) => {
                let d = c as i64 - s as i64;
                (i32::MIN as i64) < d && d <= (i32::MAX as i64)
            },
            _ => true,
        }
    }

    /// The coordinates at which the last touch ended (`(None, None)` before any touch ended).
    pub fn last_position(&self) -> (r: (Option<i32>, Option<i32>))
        ensures
            r == self@.last_position,
    {
        self.last_position
    }

    /// Feeds one event, taking `now` (nanoseconds on the detector's clock) as the time at
    /// which it happens, and returns the gesture that it completes.
    pub fn feed_at(&mut self, event: TouchEvent, now: u128) -> (r: Option<Gesture>)
        requires
            step_defined(old(self)@, event),
        ensures
            (final(self)@, r) == step(old(self)@, event, now),
    {
        match event {
            TouchEvent::TrackingStart => {
                self.state = State::Tracking { start_x: None, start_y: None, current_x: None, current_y: None };
                None
            },
            TouchEvent::Position { x, y } => {
                if let State::Tracking { start_x, start_y, current_x, current_y } = self.state {
                    let mut sx = start_x;
                    let mut sy = start_y;
                    let mut cx = current_x;
                    let mut cy = current_y;
                    if let Some(vx) = x {
                        if sx.is_none() {
                            sx = Some(vx);
                        }
                        cx = Some(vx);
                    }
                    if let Some(vy) = y {
                        if sy.is_none() {
                            sy = Some(vy);
                        }
                        cy = Some(vy);
                    }
                    self.state = State::Tracking { start_x: sx, start_y: sy, current_x: cx, current_y: cy };
                }
                None
            },
            TouchEvent::TrackingEnd => {
                let result = self.resolve(now);
                if let State::Tracking { current_x, current_y, .. } = self.state {
                    self.last_position = (current_x, current_y);
                }
                self.state = State::Idle;
                result
            },
        }
    }

    /// Decides what the touch that just ended was; leaves the state to the caller.
    fn resolve(&mut self, now: u128) -> (r: Option<Gesture>)
        requires
            end_computable(old(self)@.state),
        ensures
            old(self)@.state is Idle ==> r is None && final(self)@ == old(self)@,
            old(self)@.state is Tracking ==> {
                let (m, g) = step(old(self)@, TouchEvent::TrackingEnd, now);
                &&& r == g
                &&& final(self)@ == DetectorView { state: old(self)@.state, last_position: old(self)@.last_position, ..m }
            },
    {
        let (start_x, start_y, current_x, current_y) = match self.state {
            State::Idle => {
                return None;
            },
            State::Tracking { start_x, start_y, current_x, current_y } => (start_x, start_y, current_x, current_y),
        };
        let (has_x, dx, ax) = axis_delta(start_x, current_x);
        let (has_y, dy, ay) = axis_delta(start_y, current_y);
        let has_pos = has_x || has_y;
        if has_pos && (ax >= self.threshold || ay >= self.threshold) {
            self.last_tap = None;
            return Some(
                if has_x && has_y {
                    if ax > ay {
                        if dx > 0 { Gesture::Left } else { Gesture::Right }
                    } else {
                        if dy > 0 { Gesture::Up } else { Gesture::Down }
                    }
                } else if has_x {
                    if dx > 0 { Gesture::Left } else { Gesture::Right }
                } else {
                    if dy > 0 { Gesture::Up } else { Gesture::Down }
                },
            );
        }
        if let Some(last) = self.last_tap {
            let since: u128 = if now >= last { now - last } else { 0 };
            let window: u128 = self.double_tap_ms as u128 * 1_000_000;
            if since < window {
                self.last_tap = None;
                return Some(Gesture::DoubleTap);
            }
        }
        self.last_tap = Some(now);
        Some(Gesture::Tap)
    }

    /// Feeds one event and returns the gesture that it completes, reading the clock to tell
    /// a double tap from two taps.
    pub fn feed(&mut self, event: TouchEvent) -> (r: Option<Gesture>)
        requires
            step_defined(old(self)@, event),
        ensures
            exists|now: u128| (final(self)@, r) == step(old(self)@, event, now),
    {
        let now: u128 = match event {
            TouchEvent::TrackingEnd => duration_nanos(&clock_elapsed(&self.epoch)),
            _ => 0,
        };
        let r = self.feed_at(event, now);
        assert((self@, r) == step(old(self)@, event, now));
        r
    }
}

} // verus!

verus! {

// ----- laws ------------------------------------------------------------------

/// The state after a whole touch: the finger lands, reports `first` and then `second`,
/// and lifts at `now`; with the gesture that the lift completes.
pub open spec fn touch(m: DetectorView, first: TouchEvent, second: TouchEvent, now: u128) -> (DetectorView, Option<Gesture>) {
    let m1 = step(m, TouchEvent::TrackingStart, now).0;
    let m2 = step(m1, first, now).0;
    let m3 = step(m2, second, now).0;
    step(m3, TouchEvent::TrackingEnd, now)
}

/// A touch that reports no coordinate at all.
pub open spec fn still_touch(m: DetectorView, now: u128) -> (DetectorView, Option<Gesture>) {
    let m1 = step(m, TouchEvent::TrackingStart, now).0;
    step(m1, TouchEvent::TrackingEnd, now)
}

/// Only the end of a touch completes a gesture, and it always leaves the detector idle.
pub proof fn law_only_end_completes(m: DetectorView, event: TouchEvent, now: u128)
    ensures
        step(m, event, now).1 is Some ==> event is TrackingEnd,
        event is TrackingEnd ==> step(m, event, now).0.state is Idle,
        event is TrackingEnd && m.state is Tracking ==> step(m, event, now).1 is Some,
{
}

/// Coordinates reported while no finger is down change nothing.
pub proof fn law_position_while_idle(m: DetectorView, x: Option<i32>, y: Option<i32>, now: u128)
    requires
        m.state is Idle,
    ensures
        step(m, TouchEvent::Position { x, y }, now) == (m, None::<Gesture>),
{
}

/// Only the end of a touch reads the clock: any other event does the same at every time.
pub proof fn law_time_matters_only_at_end(m: DetectorView, event: TouchEvent, t1: u128, t2: u128)
    requires
        !(event is TrackingEnd),
    ensures
        step(m, event, t1) == step(m, event, t2),
{
}

/// A vertical move of at least the threshold is a swipe; growing Y is Up, shrinking Y is Down.
pub proof fn law_vertical_swipe(m: DetectorView, y0: i32, y1: i32, now: u128)
    requires
        abs_int(y1 - y0) >= m.threshold,
    ensures
        touch(
            m,
            TouchEvent::Position { x: None, y: Some(y0) },
            TouchEvent::Position { x: None, y: Some(y1) },
            now,
        ).1 == Some(if y1 > y0 { Gesture::Up } else { Gesture::Down }),
{
}

/// A horizontal move of at least the threshold is a swipe; growing X is Left, shrinking X is Right.
pub proof fn law_horizontal_swipe(m: DetectorView, x0: i32, x1: i32, now: u128)
    requires
        abs_int(x1 - x0) >= m.threshold,
    ensures
        touch(
            m,
            TouchEvent::Position { x: Some(x0), y: None },
            TouchEvent::Position { x: Some(x1), y: None },
            now,
        ).1 == Some(if x1 > x0 { Gesture::Left } else { Gesture::Right }),
{
}

/// When both axes move, the axis that moved strictly more decides the direction; a tie goes to
/// the vertical axis.
pub proof fn law_dominant_axis(m: DetectorView, x0: i32, y0: i32, x1: i32, y1: i32, now: u128)
    requires
        abs_int(x1 - x0) >= m.threshold || abs_int(y1 - y0) >= m.threshold,
    ensures
        touch(
            m,
            TouchEvent::Position { x: Some(x0), y: Some(y0) },
            TouchEvent::Position { x: Some(x1), y: Some(y1) },
            now,
        ).1 == Some(
            if abs_int(x1 - x0) > abs_int(y1 - y0) {
                horizontal(x1 - x0)
            } else {
                vertical(y1 - y0)
            },
        ),
{
}

/// A move shorter than the threshold on both axes is no swipe: it is a tap or a double tap.
pub proof fn law_short_move_is_tap(m: DetectorView, x0: i32, y0: i32, x1: i32, y1: i32, now: u128)
    requires
        abs_int(x1 - x0) < m.threshold,
        abs_int(y1 - y0) < m.threshold,
    ensures
        touch(
            m,
            TouchEvent::Position { x: Some(x0), y: Some(y0) },
            TouchEvent::Position { x: Some(x1), y: Some(y1) },
            now,
        ).1 == Some(
            if within_double_tap(m.last_tap, now, m.double_tap_ms) {
                Gesture::DoubleTap
            } else {
                Gesture::Tap
            },
        ),
{
}

/// Two taps less than the double-tap window apart make a tap and then a double tap; the tap
/// after a double tap is a plain tap again.
pub proof fn law_double_tap(m: DetectorView, t1: u128, t2: u128, t3: u128)
    requires
        m.last_tap is None,
        t1 <= t2,
        t2 - t1 < m.double_tap_ms * 1_000_000,
    ensures
        ({
            let (a, ga) = still_touch(m, t1);
            let (b, gb) = still_touch(a, t2);
            let (c, gc) = still_touch(b, t3);
            ga == Some(Gesture::Tap) && gb == Some(Gesture::DoubleTap) && gc == Some(Gesture::Tap)
        }),
{
}

/// Two taps at least the double-tap window apart are two taps.
pub proof fn law_slow_taps(m: DetectorView, t1: u128, t2: u128)
    requires
        m.last_tap is None,
        t1 <= t2,
        t2 - t1 >= m.double_tap_ms * 1_000_000,
    ensures
        ({
            let (a, ga) = still_touch(m, t1);
            let (b, gb) = still_touch(a, t2);
            ga == Some(Gesture::Tap) && gb == Some(Gesture::Tap)
        }),
{
}

/// A swipe between two taps keeps them from making a double tap.
pub proof fn law_swipe_breaks_double_tap(m: DetectorView, y0: i32, y1: i32, t1: u128, t2: u128, t3: u128)
    requires
        m.last_tap is None,
        abs_int(y1 - y0) >= m.threshold,
    ensures
        ({
            let (a, ga) = still_touch(m, t1);
            let (b, gb) = touch(
                a,
                TouchEvent::Position { x: None, y: Some(y0) },
                TouchEvent::Position { x: None, y: Some(y1) },
                t2,
            );
            let (c, gc) = still_touch(b, t3);
            ga == Some(Gesture::Tap) && gb == Some(vertical(y1 - y0)) && gc == Some(Gesture::Tap)
        }),
{
}

/// The end of a touch, spelled out. With `hx`/`hy` whether a displacement is known on each
/// axis: a move of at least the threshold is a swipe along the axis that moved more (vertical
/// on a tie or when X is unknown), and clears the pending tap; otherwise a second tap within
/// the window is a double tap and clears it, and any other tap is a tap that becomes pending.
/// The threshold and the window stay, and the detector is idle again.
pub proof fn law_end_of_touch(m: DetectorView, now: u128)
    requires
        m.state is Tracking,
    ensures
        ({
            let (sx, sy, cx, cy) = match m.state {
                State::Tracking { start_x, start_y, current_x, current_y } => (start_x, start_y, current_x, current_y),
                State::Idle => (None, None, None, None),
            };
            let hx = sx is Some && cx is Some;
            let hy = sy is Some && cy is Some;
            let dx: int = if hx { cx->0 - sx->0 } else { 0 };
            let dy: int = if hy { cy->0 - sy->0 } else { 0 };
            let (m2, r) = step(m, TouchEvent::TrackingEnd, now);
            &&& m2.state is Idle
            &&& m2.threshold == m.threshold
            &&& m2.double_tap_ms == m.double_tap_ms
            &&& m2.last_position == (cx, cy)
            &&& if (hx || hy) && (abs_int(dx) >= m.threshold || abs_int(dy) >= m.threshold) {
                &&& r == Some(
                    if hx && (!hy || abs_int(dx) > abs_int(dy)) {
                        if dx > 0 { Gesture::Left } else { Gesture::Right }
                    } else if dy > 0 {
                        Gesture::Up
                    } else {
                        Gesture::Down
                    },
                )
                &&& m2.last_tap is None
            } else if m.last_tap matches Some(l) && elapsed(l, now) < m.double_tap_ms * 1_000_000 {
                r == Some(Gesture::DoubleTap) && m2.last_tap is None
            } else {
                r == Some(Gesture::Tap) && m2.last_tap == Some(now)
            }
        }),
{
}

/// The start and current coordinates of the touch under way: `(start_x, start_y, current_x, current_y)`.
pub open spec fn coords(state: State) -> (Option<i32>, Option<i32>, Option<i32>, Option<i32>) {
    match state {
        State::Tracking { start_x, start_y, current_x, current_y } => (start_x, start_y, current_x, current_y),
        State::Idle => (None, None, None, None),
    }
}

/// A coordinate event changes only the axes it reports: an axis it leaves out keeps its start
/// and current coordinate; a reported axis takes the value as current, and as start where it
/// had none.
pub proof fn law_position_touches_only_reported_axes(m: DetectorView, x: Option<i32>, y: Option<i32>, now: u128)
    requires
        m.state is Tracking,
    ensures
        ({
            let (sx, sy, cx, cy) = coords(m.state);
            let after = step(m, TouchEvent::Position { x, y }, now).0;
            let (sx2, sy2, cx2, cy2) = coords(after.state);
            &&& after.state is Tracking
            &&& x is None ==> sx2 == sx && cx2 == cx
            &&& y is None ==> sy2 == sy && cy2 == cy
            &&& x matches Some(v) ==> cx2 == Some(v) && sx2 == (if sx is Some { sx } else { Some(v) })
            &&& y matches Some(v) ==> cy2 == Some(v) && sy2 == (if sy is Some { sy } else { Some(v) })
        }),
{
}

/// A touch as the ring reports it, one axis per event: X at `x0`, Y at `y0`, X at `x1`, Y at
/// `y1`, then the lift at `now`.
pub open spec fn split_axis_touch(m: DetectorView, x0: i32, y0: i32, x1: i32, y1: i32, now: u128) -> (DetectorView, Option<Gesture>) {
    let m1 = step(m, TouchEvent::TrackingStart, now).0;
    let m2 = step(m1, TouchEvent::Position { x: Some(x0), y: None }, now).0;
    let m3 = step(m2, TouchEvent::Position { x: None, y: Some(y0) }, now).0;
    let m4 = step(m3, TouchEvent::Position { x: Some(x1), y: None }, now).0;
    let m5 = step(m4, TouchEvent::Position { x: None, y: Some(y1) }, now).0;
    step(m5, TouchEvent::TrackingEnd, now)
}

/// When X and Y arrive in separate events, the touch is judged by both displacements: an X move
/// of at least the threshold and larger than the Y move is Left (X grew) or Right (X shrank);
/// a Y move of at least the threshold and no smaller than the X move is Up or Down.
pub proof fn law_split_axis_swipe(m: DetectorView, x0: i32, y0: i32, x1: i32, y1: i32, now: u128)
    ensures
        abs_int(x1 - x0) >= m.threshold && abs_int(x1 - x0) > abs_int(y1 - y0) ==> split_axis_touch(m, x0, y0, x1, y1, now).1
            == Some(if x1 > x0 { Gesture::Left } else { Gesture::Right }),
        abs_int(y1 - y0) >= m.threshold && abs_int(y1 - y0) >= abs_int(x1 - x0) ==> split_axis_touch(m, x0, y0, x1, y1, now).1
            == Some(if y1 > y0 { Gesture::Up } else { Gesture::Down }),
        split_axis_touch(m, x0, y0, x1, y1, now).0.last_position == (Some(x1), Some(y1)),
{
}

} // verus!
