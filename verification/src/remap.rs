//! The decisions of the remapper's event loop: which touch event a raw input event is, what a
//! recognised gesture or a consumer key leads to, and which profile is active.
use vstd::prelude::*;
use vstd::string::{StrSliceExecFns, StringExecFns};
use crate::action::{
    action_plan, repeat_plan_view, repeat_spec, stopped, wtype_key_name, ActionExecutor, ActionPlan,
    ExecutorView, InvocationView, PlanView, RepeatPlan, RepeatPlanView,
};
use crate::config::Config;
use crate::gesture::{gesture_name, step, step_defined, Gesture, GestureDetector, TouchEvent};
use crate::text::{
    digits_value, is_digit, is_prefix, leading_digits, parse_digits_u32, str_eq, strip_prefix,
    without_prefix,
};

verus! {

// ----- raw input events --------------------------------------------------------

/// Event type of key events (`linux/input-event-codes.h`).
pub const EV_KEY: u16 = 0x01;
/// Event type of absolute-axis events.
pub const EV_ABS: u16 = 0x03;
pub const ABS_X: u16 = 0x00;
pub const ABS_Y: u16 = 0x01;
pub const ABS_MT_POSITION_X: u16 = 0x35;
pub const ABS_MT_POSITION_Y: u16 = 0x36;
pub const ABS_MT_TRACKING_ID: u16 = 0x39;
/// The key that the remote's power button sends.
pub const KEY_VOLUMEDOWN: u16 = 114;
/// A tap lower on the ring than this (a greater Y) is the Mod button.
pub const MOD_MIN_Y: i32 = 600;

/// An input event as the kernel reports it.
#[derive(Debug, Clone, Copy, PartialEq, Eq, Structural)]
pub struct InputEvent {
    pub event_type: u16,
    pub code: u16,
    pub value: i32,
}

/// The touch event that an input event of the touch device is, if any: a tracking id that is
/// not negative starts a touch, a negative one ends it; the X and Y axes, single- and
/// multi-touch, give coordinates.
pub open spec fn touch_event_of(ev: InputEvent) -> Option<TouchEvent> {
    if ev.event_type != EV_ABS {
        None
    } else if ev.code == ABS_MT_TRACKING_ID {
        Some(if ev.value >= 0 { TouchEvent::TrackingStart } else { TouchEvent::TrackingEnd })
    } else if ev.code == ABS_MT_POSITION_X || ev.code == ABS_X {
        Some(TouchEvent::Position { x: Some(ev.value), y: None })
    } else if ev.code == ABS_MT_POSITION_Y || ev.code == ABS_Y {
        Some(TouchEvent::Position { x: None, y: Some(ev.value) })
    } else {
        None
    }
}

/// Whether the detector can take the touch event that `ev` is.
pub open spec fn touch_event_defined(ev: InputEvent, m: crate::gesture::DetectorView) -> bool {
    match touch_event_of(ev) {
        Some(te) => step_defined(m, te),
        None => true,
    }
}

/// The touch event that `ev` is, if any.
pub fn touch_event(ev: &InputEvent) -> (r: Option<TouchEvent>)
    ensures
        r == touch_event_of(*ev),
{
    if ev.event_type != EV_ABS {
        None
    } else if ev.code == ABS_MT_TRACKING_ID {
        Some(if ev.value >= 0 { TouchEvent::TrackingStart } else { TouchEvent::TrackingEnd })
    } else if ev.code == ABS_MT_POSITION_X || ev.code == ABS_X {
        Some(TouchEvent::Position { x: Some(ev.value), y: None })
    } else if ev.code == ABS_MT_POSITION_Y || ev.code == ABS_Y {
        Some(TouchEvent::Position { x: None, y: Some(ev.value) })
    } else {
        None
    }
}

/// Feeds an event of the touch device to the detector; returns the gesture it completes.
pub fn handle_touch_event(ev: &InputEvent, detector: &mut GestureDetector) -> (r: Option<Gesture>)
    requires
        touch_event_defined(*ev, old(detector)@),
    ensures
        match touch_event_of(*ev) {
            Some(te) => exists|now: u128| (final(detector)@, r) == step(old(detector)@, te, now),
            None => r is None && final(detector)@ == old(detector)@,
        },
{
    match touch_event(ev) {
        Some(TouchEvent::TrackingStart) => {
            detector.feed(TouchEvent::TrackingStart);
            None
        },
        Some(TouchEvent::TrackingEnd) => detector.feed(TouchEvent::TrackingEnd),
        Some(te) => {
            detector.feed(te);
            None
        },
        None => None,
    }
}

// ----- repeat counts -----------------------------------------------------------

/// The number of leading ASCII digits of `s`.
pub open spec fn leading_digit_count(s: Seq<char>) -> nat
    decreases s.len(),
{
    if s.len() > 0 && is_digit(s[0]) {
        1 + leading_digit_count(s.drop_first())
    } else {
        0
    }
}

/// The repeat count that prefixes a key (`"20W"` gives 20): 1 without a prefix, and 1 for a
/// prefix of 0 or beyond `u32::MAX`.
pub open spec fn repeat_count(s: Seq<char>) -> u32 {
    let k = leading_digit_count(s);
    let v = digits_value(s.subrange(0, k as int));
    if k == 0 || v == 0 || v > u32::MAX {
        1
    } else {
        v as u32
    }
}

/// The key after its repeat count.
pub open spec fn repeat_key_name(s: Seq<char>) -> Seq<char> {
    s.subrange(leading_digit_count(s) as int, s.len() as int)
}

proof fn lemma_leading_digit_count(s: Seq<char>, k: int)
    requires
        0 <= k <= s.len(),
        forall|j: int| 0 <= j < k ==> is_digit(#[trigger] s[j]),
        k < s.len() ==> !is_digit(s[k]),
    ensures
        leading_digit_count(s) == k,
    decreases k,
{
    if k > 0 {
        let t = s.drop_first();
        assert forall|j: int| 0 <= j < k - 1 implies is_digit(#[trigger] t[j]) by {
            assert(t[j] == s[j + 1]);
        }
        if k - 1 < t.len() {
            assert(t[k - 1] == s[k]);
        }
        lemma_leading_digit_count(t, k - 1);
    }
}

/// Splits a key with an optional repeat prefix: `"20W"` gives `(20, "W")`, `"A"` gives `(1, "A")`.
pub fn parse_repeat_key(s: &str) -> (r: (u32, &str))
    ensures
        r.0 == repeat_count(s@),
        r.1@ == repeat_key_name(s@),
{
    let k = leading_digits(s);
    proof {
        lemma_leading_digit_count(s@, k as int);
    }
    if k == 0 {
        assert(s@.subrange(0, s@.len() as int) =~= s@);
        (1, s)
    } else {
        let n = s.unicode_len();
        let digits = s.substring_char(0, k);
        let count = match parse_digits_u32(digits) {
            Some(c) => if c < 1 { 1 } else { c },
            None => 1,
        };
        (count, s.substring_char(k, n))
    }
}

// ----- reactions -----------------------------------------------------------------

/// What the event loop does next.
pub enum Reaction {
    /// Nothing.
    Nothing,
    /// Carry out the action mapped to `name`.
    Carry { name: String, plan: ActionPlan },
    /// Start repeating a key, the action mapped to `name` (`None`: `wtype` is missing).
    Repeat { name: String, repeat: Option<RepeatPlan> },
    /// Load the profile at `index` of the profile list, from `path`.
    SwitchProfile { index: usize, path: String },
    /// Print this line (debug mode).
    Report(String),
}

pub enum ReactionView {
    Nothing,
    Carry { name: Seq<char>, plan: PlanView },
    Repeat { name: Seq<char>, repeat: Option<RepeatPlanView> },
    SwitchProfile { index: usize, path: Seq<char> },
    Report(Seq<char>),
}

impl View for Reaction {
    type V = ReactionView;

    open spec fn view(&self) -> ReactionView {
        match self {
            Reaction::Nothing => ReactionView::Nothing,
            Reaction::Carry { name, plan } => ReactionView::Carry { name: name@, plan: plan@ },
            Reaction::Repeat { name, repeat } => ReactionView::Repeat { name: name@, repeat: repeat_plan_view(*repeat) },
            Reaction::SwitchProfile { index, path } => ReactionView::SwitchProfile { index: *index, path: path@ },
            Reaction::Report(s) => ReactionView::Report(s@),
        }
    }
}

// ----- consumer keys ---------------------------------------------------------------

/// Names the result of formatting `evdev::Key::new(code)` with `Debug`: evdev's name of the key
/// (`KEY_...`, or `unknown key: <code>`).
pub uninterp spec fn evdev_key_name(code: u16) -> Seq<char>;

/// Calls evdev's `Debug` formatting of `evdev::Key::new(code)`. Its result depends on `code`
/// alone; it is named, not stated.
#[verifier::external_body]
fn key_debug_name(code: u16) -> (r: String)
    ensures
        r@ == evdev_key_name(code),
{
    format!("{:?}", evdev::Key::new(code))
}

/// The mapping name of a consumer key: the power button (`KEY_VOLUMEDOWN`) is `POWER`, any
/// other key goes by evdev's name.
pub open spec fn consumer_key_name(code: u16) -> Seq<char> {
    if code == KEY_VOLUMEDOWN { "POWER"@ } else { evdev_key_name(code) }
}

/// The name of a key event's value.
pub open spec fn key_state_name(value: i32) -> Seq<char> {
    if value == 0 {
        "RELEASE"@
    } else if value == 1 {
        "PRESS"@
    } else if value == 2 {
        "REPEAT"@
    } else {
        "UNKNOWN"@
    }
}

/// What a consumer key event with mapping name `name` leads to: in remap mode, a press
/// carries out the mapped action; in debug mode, the event is reported.
pub open spec fn consumer_reaction_spec(
    name: Seq<char>,
    value: i32,
    remap: bool,
    mappings: Map<Seq<char>, Seq<char>>,
    e: ExecutorView,
) -> ReactionView {
    if remap {
        if value == 1 && mappings.contains_key(name) {
            ReactionView::Carry { name, plan: action_plan(e, mappings[name]) }
        } else {
            ReactionView::Nothing
        }
    } else {
        ReactionView::Report("[DEBUG] [CONSUMER] "@ + key_state_name(value) + " "@ + name)
    }
}

fn owned(s: &str) -> (r: String)
    ensures
        r@ == s@,
{
    s.to_owned()
}

/// The mapping name of the key with `code`.
pub fn consumer_key(code: u16) -> (r: String)
    ensures
        r@ == consumer_key_name(code),
{
    if code == KEY_VOLUMEDOWN {
        owned("POWER")
    } else {
        key_debug_name(code)
    }
}

/// What a consumer key event with mapping name `name` and value `value` leads to.
pub fn consumer_reaction(name: &str, value: i32, remap: bool, config: &Config, executor: &ActionExecutor) -> (r: Reaction)
    ensures
        r@ == consumer_reaction_spec(name@, value, remap, config.mappings@, executor@),
{
    if remap {
        if value == 1 {
            if let Some(action) = config.get_mapping(name) {
                return Reaction::Carry { name: owned(name), plan: executor.execute(action) };
            }
        }
        Reaction::Nothing
    } else {
        let state = if value == 0 {
            "RELEASE"
        } else if value == 1 {
            "PRESS"
        } else if value == 2 {
            "REPEAT"
        } else {
            "UNKNOWN"
        };
        let mut line = owned("[DEBUG] [CONSUMER] ");
        line.append(state);
        line.append(" ");
        line.append(name);
        Reaction::Report(line)
    }
}

/// What an event of the consumer-control device leads to; events that are no key events lead
/// to nothing.
pub fn handle_consumer_event(ev: &InputEvent, remap: bool, config: &Config, executor: &ActionExecutor) -> (r: Reaction)
    ensures
        ev.event_type != EV_KEY ==> r@ == ReactionView::Nothing,
        ev.event_type == EV_KEY ==> r@ == consumer_reaction_spec(
            consumer_key_name(ev.code),
            ev.value,
            remap,
            config.mappings@,
            executor@,
        ),
{
    if ev.event_type != EV_KEY {
        return Reaction::Nothing;
    }
    let name = consumer_key(ev.code);
    consumer_reaction(name.as_str(), ev.value, remap, config, executor)
}

// ----- the session ---------------------------------------------------------------

/// `acc` followed by those of the first `k` of `alts` that it does not hold yet, each once.
pub open spec fn add_missing(acc: Seq<Seq<char>>, alts: Seq<Seq<char>>, k: int) -> Seq<Seq<char>>
    decreases k,
{
    if k <= 0 {
        acc
    } else {
        let prev = add_missing(acc, alts, k - 1);
        if prev.contains(alts[k - 1]) { prev } else { prev.push(alts[k - 1]) }
    }
}

/// The profiles cycled through on a Mod tap: the primary config, the legacy `alt_config`, then
/// the `alt_configs` not listed before.
pub open spec fn profiles_spec(primary: Seq<char>, alt_config: Option<Seq<char>>, alt_configs: Seq<Seq<char>>) -> Seq<Seq<char>> {
    let start = match alt_config {
        Some(a) => seq![primary, a],
        None => seq![primary],
    };
    add_missing(start, alt_configs, alt_configs.len() as int)
}

pub open spec fn strings_view(v: Seq<String>) -> Seq<Seq<char>> {
    v.map_values(|s: String| s@)
}

/// The mathematical state of a [`Session`].
pub struct SessionView {
    pub profiles: Seq<Seq<char>>,
    pub profile_index: usize,
    pub remap: bool,
}

/// Whether a gesture is a tap on the Mod button.
pub open spec fn is_mod_tap(g: Gesture, last_y: Option<i32>) -> bool {
    g == Gesture::Tap && (last_y matches Some(y) && y > MOD_MIN_Y)
}

/// What a recognised gesture leads to. Every gesture first stops any key repeat. A Mod tap
/// switches to the next profile where there are several; otherwise in remap mode the mapped
/// action is carried out (a `key:` action of a swipe or double tap repeats the key), and in debug
/// mode the gesture is reported.
pub open spec fn gesture_step(
    s: SessionView,
    e: ExecutorView,
    g: Gesture,
    last_y: Option<i32>,
    mappings: Map<Seq<char>, Seq<char>>,
) -> (SessionView, ExecutorView, ReactionView) {
    let e1 = stopped(e);
    let name = gesture_name(g);
    if is_mod_tap(g, last_y) && s.profiles.len() > 1 {
        let i = ((s.profile_index + 1) % (s.profiles.len() as int)) as usize;
        (
            SessionView { profile_index: i, ..s },
            e1,
            ReactionView::SwitchProfile { index: i, path: s.profiles[i as int] },
        )
    } else if !s.remap {
        (s, e1, ReactionView::Report("[DEBUG] >>> "@ + name + " DETECTED <<<"@))
    } else if !mappings.contains_key(name) {
        (s, e1, ReactionView::Nothing)
    } else {
        let a = mappings[name];
        if g != Gesture::Tap && is_prefix("key:"@, a) {
            let rest = without_prefix("key:"@, a);
            let (e2, p) = repeat_spec(e1, repeat_key_name(rest), repeat_count(rest));
            (s, e2, ReactionView::Repeat { name, repeat: p })
        } else {
            (s, e1, ReactionView::Carry { name, plan: action_plan(e1, a) })
        }
    }
}

/// The state of the event loop: the profiles, the active one, and the mode.
pub struct Session {
    profiles: Vec<String>,
    profile_index: usize,
    remap: bool,
}

impl View for Session {
    type V = SessionView;

    closed spec fn view(&self) -> SessionView {
        SessionView { profiles: strings_view(self.profiles@), profile_index: self.profile_index, remap: self.remap }
    }
}

/// Whether `v` holds a string equal to `s`.
fn contains_str(v: &Vec<String>, s: &str) -> (r: bool)
    ensures
        r == strings_view(v@).contains(s@),
{
    let n = v.len();
    let mut i: usize = 0;
    while i < n
        invariant
            n == v@.len(),
            i <= n,
            forall|j: int| 0 <= j < i ==> v@[j]@ != s@,
        decreases n - i,
    {
        if str_eq(v[i].as_str(), s) {
            assert(strings_view(v@)[i as int] == s@);
            return true;
        }
        i = i + 1;
    }
    assert forall|j: int| 0 <= j < strings_view(v@).len() implies strings_view(v@)[j] != s@ by {
        assert(strings_view(v@)[j] == v@[j]@);
    }
    false
}

impl Session {
    #[verifier::type_invariant]
    spec fn inv(self) -> bool {
        0 <= self.profile_index < self.profiles@.len()
    }

    /// A session on the config at `primary`, in remap or debug mode, on the first profile.
    pub fn new(primary: &str, config: &Config, remap: bool) -> (r: Self)
        ensures
            r@.profiles == profiles_spec(
                primary@,
                match config.alt_config {
                    Some(a) => Some(a@),
                    None => None::<Seq<char>>,
                },
                strings_view(config.alt_configs@),
            ),
            r@.profile_index == 0,
            r@.remap == remap,
    {
        let mut profiles: Vec<String> = Vec::new();
        profiles.push(owned(primary));
        if let Some(alt) = &config.alt_config {
            profiles.push(alt.clone());
        }
        let ghost start = strings_view(profiles@);
        let ghost alts = strings_view(config.alt_configs@);
        assert(start == match config.alt_config {
            Some(a) => seq![primary@, a@],
            None => seq![primary@],
        });
        let n = config.alt_configs.len();
        let mut i: usize = 0;
        while i < n
            invariant
                n == config.alt_configs@.len(),
                alts == strings_view(config.alt_configs@),
                i <= n,
                profiles@.len() >= 1,
                strings_view(profiles@) == add_missing(start, alts, i as int),
            decreases n - i,
        {
            let alt = &config.alt_configs[i];
            assert(alts[i as int] == alt@);
            if !contains_str(&profiles, alt.as_str()) {
                profiles.push(alt.clone());
                assert(strings_view(profiles@) =~= add_missing(start, alts, i as int).push(alt@));
            }
            i = i + 1;
        }
        Session { profiles, profile_index: 0, remap }
    }

    /// The profiles, in the order a Mod tap cycles through them.
    pub fn profiles(&self) -> (r: &Vec<String>)
        ensures
            strings_view(r@) == self@.profiles,
    {
        &self.profiles
    }

    /// The index of the active profile.
    pub fn profile_index(&self) -> (r: usize)
        ensures
            r == self@.profile_index,
            r < self@.profiles.len(),
    {
        proof {
            use_type_invariant(self);
        }
        self.profile_index
    }

    /// Whether mapped actions are carried out (else gestures and keys are only reported).
    pub fn remap(&self) -> (r: bool)
        ensures
            r == self@.remap,
    {
        self.remap
    }

    /// Reacts to a recognised gesture, `last_y` being the Y coordinate at which its touch ended.
    pub fn on_gesture(
        &mut self,
        gesture: Gesture,
        last_y: Option<i32>,
        config: &Config,
        executor: &mut ActionExecutor,
    ) -> (r: Reaction)
        requires
            old(executor)@.repeat_id < u64::MAX - 1,
        ensures
            (final(self)@, final(executor)@, r@) == gesture_step(
                old(self)@,
                old(executor)@,
                gesture,
                last_y,
                config.mappings@,
            ),
            final(self)@.profile_index < final(self)@.profiles.len(),
    {
        proof {
            use_type_invariant(&*self);
        }
        let is_mod = match last_y {
            Some(y) => y > MOD_MIN_Y,
            None => false,
        };
        executor.stop_repeat();
        let name = gesture.as_str();
        if gesture == Gesture::Tap && is_mod && self.profiles.len() > 1 {
            let index = (self.profile_index + 1) % self.profiles.len();
            self.profile_index = index;
            let path = self.profiles[index].clone();
            return Reaction::SwitchProfile { index, path };
        }
        if !self.remap {
            let mut line = owned("[DEBUG] >>> ");
            line.append(name);
            line.append(" DETECTED <<<");
            return Reaction::Report(line);
        }
        match config.get_mapping(name) {
            None => Reaction::Nothing,
            Some(action) => {
                if gesture != Gesture::Tap {
                    if let Some(rest) = strip_prefix(action, "key:") {
                        let (count, key) = parse_repeat_key(rest);
                        let repeat = executor.repeat_key(key, count);
                        return Reaction::Repeat { name: owned(name), repeat };
                    }
                }
                Reaction::Carry { name: owned(name), plan: executor.execute(action) }
            },
        }
    }

    /// Reacts to an event of the consumer-control device: stops any key repeat, then reacts as
    /// [`handle_consumer_event`] says.
    pub fn on_consumer(&self, ev: &InputEvent, config: &Config, executor: &mut ActionExecutor) -> (r: Reaction)
        requires
            old(executor)@.repeat_id < u64::MAX,
        ensures
            final(executor)@ == stopped(old(executor)@),
            ev.event_type != EV_KEY ==> r@ == ReactionView::Nothing,
            ev.event_type == EV_KEY ==> r@ == consumer_reaction_spec(
                consumer_key_name(ev.code),
                ev.value,
                self@.remap,
                config.mappings@,
                final(executor)@,
            ),
    {
        executor.stop_repeat();
        handle_consumer_event(ev, self.remap, config, executor)
    }
}

} // verus!

verus! {

// ----- laws ------------------------------------------------------------------

/// The repeat count is never 0, and the digits taken for it followed by the key make up the
/// whole string.
pub proof fn law_repeat_key_split(s: Seq<char>)
    ensures
        repeat_count(s) >= 1,
        s == s.subrange(0, leading_digit_count(s) as int) + repeat_key_name(s),
        forall|j: int| 0 <= j < leading_digit_count(s) ==> is_digit(#[trigger] s[j]),
{
    lemma_leading_digit_count_bound(s);
    assert(s =~= s.subrange(0, leading_digit_count(s) as int) + repeat_key_name(s));
}

proof fn lemma_leading_digit_count_bound(s: Seq<char>)
    ensures
        leading_digit_count(s) <= s.len(),
        forall|j: int| 0 <= j < leading_digit_count(s) ==> is_digit(#[trigger] s[j]),
    decreases s.len(),
{
    if s.len() > 0 && is_digit(s[0]) {
        let t = s.drop_first();
        lemma_leading_digit_count_bound(t);
        assert forall|j: int| 0 <= j < leading_digit_count(s) implies is_digit(#[trigger] s[j]) by {
            if j > 0 {
                assert(s[j] == t[j - 1]);
            }
        }
    }
}

proof fn lemma_add_missing(acc: Seq<Seq<char>>, alts: Seq<Seq<char>>, k: int)
    requires
        0 <= k <= alts.len(),
    ensures
        add_missing(acc, alts, k).len() >= acc.len(),
        add_missing(acc, alts, k).len() <= acc.len() + k,
        add_missing(acc, alts, k).subrange(0, acc.len() as int) == acc,
        forall|j: int| 0 <= j < k ==> add_missing(acc, alts, k).contains(#[trigger] alts[j]),
        acc.no_duplicates() ==> add_missing(acc, alts, k).no_duplicates(),
    decreases k,
{
    if k > 0 {
        lemma_add_missing(acc, alts, k - 1);
        let prev = add_missing(acc, alts, k - 1);
        let cur = add_missing(acc, alts, k);
        if !prev.contains(alts[k - 1]) {
            assert(cur.subrange(0, acc.len() as int) =~= prev.subrange(0, acc.len() as int));
            assert forall|j: int| 0 <= j < k implies cur.contains(#[trigger] alts[j]) by {
                if j < k - 1 {
                    let i = choose|i: int| 0 <= i < prev.len() && prev[i] == alts[j];
                    assert(cur[i] == alts[j]);
                } else {
                    assert(cur[prev.len() as int] == alts[j]);
                }
            }
        }
    }
}

/// The profile list starts with the primary config (then the legacy `alt_config`), lists every
/// one of `alt_configs`, adds none of them twice, and holds no path twice where the primary
/// and legacy paths differ.
pub proof fn law_profiles(primary: Seq<char>, alt_config: Option<Seq<char>>, alt_configs: Seq<Seq<char>>)
    ensures
        ({
            let p = profiles_spec(primary, alt_config, alt_configs);
            let start_len: int = if alt_config is Some { 2 } else { 1 };
            &&& p.len() >= start_len
            &&& p[0] == primary
            &&& (alt_config matches Some(a) ==> p[1] == a)
            &&& forall|j: int| 0 <= j < alt_configs.len() ==> p.contains(#[trigger] alt_configs[j])
            &&& p.len() <= start_len + alt_configs.len()
            &&& (alt_config matches Some(a) ==> a != primary) ==> p.no_duplicates()
        }),
{
    let start = match alt_config {
        Some(a) => seq![primary, a],
        None => seq![primary],
    };
    lemma_add_missing(start, alt_configs, alt_configs.len() as int);
    let p = profiles_spec(primary, alt_config, alt_configs);
    assert(p[0] == p.subrange(0, start.len() as int)[0]);
    if alt_config is Some {
        assert(p[1] == p.subrange(0, start.len() as int)[1]);
    }
}

/// A tap on the Mod button (Y beyond the Mod line) with this session and executor state.
pub open spec fn mod_tap(s: SessionView, e: ExecutorView) -> (SessionView, ExecutorView, ReactionView) {
    gesture_step(s, e, Gesture::Tap, Some((MOD_MIN_Y + 1) as i32), Map::empty())
}

/// The session after `k` Mod taps (the executor state plays no part in the session's part).
pub open spec fn after_mod_taps(s: SessionView, e: ExecutorView, k: nat) -> SessionView
    decreases k,
{
    if k == 0 {
        s
    } else {
        mod_tap(after_mod_taps(s, e, (k - 1) as nat), e).0
    }
}

/// With several profiles, Mod taps cycle through them: after `k` taps the profile `k` places on
/// is active, and after as many taps as there are profiles the first one is again.
pub proof fn law_mod_taps_cycle(s: SessionView, e: ExecutorView, k: nat)
    requires
        1 < s.profiles.len() <= usize::MAX,
        s.profile_index < s.profiles.len(),
    ensures
        after_mod_taps(s, e, k).profiles == s.profiles,
        after_mod_taps(s, e, k).profile_index == (s.profile_index + k) % (s.profiles.len() as int),
        after_mod_taps(s, e, s.profiles.len()).profile_index == s.profile_index,
{
    let n = s.profiles.len() as int;
    lemma_mod_taps_index(s, e, k);
    lemma_mod_taps_index(s, e, s.profiles.len());
    vstd::arithmetic::div_mod::lemma_mod_add_multiples_vanish(s.profile_index as int, n);
    vstd::arithmetic::div_mod::lemma_small_mod(s.profile_index as nat, n as nat);
    assert(s.profile_index + n == n + s.profile_index);
}

proof fn lemma_mod_taps_index(s: SessionView, e: ExecutorView, k: nat)
    requires
        1 < s.profiles.len() <= usize::MAX,
        s.profile_index < s.profiles.len(),
    ensures
        after_mod_taps(s, e, k).profiles == s.profiles,
        after_mod_taps(s, e, k).profile_index == (s.profile_index + k) % (s.profiles.len() as int),
    decreases k,
{
    let n = s.profiles.len() as int;
    if k > 0 {
        lemma_mod_taps_index(s, e, (k - 1) as nat);
        let prev = after_mod_taps(s, e, (k - 1) as nat);
        let x = s.profile_index + k - 1;
        vstd::arithmetic::div_mod::lemma_add_mod_noop(x, 1, n);
        vstd::arithmetic::div_mod::lemma_small_mod(1, n as nat);
        assert(prev.profile_index == x % n);
        assert(0 <= (x % n + 1) % n < n);
        assert(mod_tap(prev, e).0.profile_index == (x + 1) % n);
    } else {
        vstd::arithmetic::div_mod::lemma_small_mod(s.profile_index as nat, n as nat);
    }
}

/// Every gesture stops any key repeat under way: the repeat generation moves on, and a
/// session that is not switching profile keeps its active profile.
pub proof fn law_gesture_stops_repeats(
    s: SessionView,
    e: ExecutorView,
    g: Gesture,
    last_y: Option<i32>,
    mappings: Map<Seq<char>, Seq<char>>,
)
    requires
        e.repeat_id < u64::MAX - 1,
    ensures
        gesture_step(s, e, g, last_y, mappings).1.repeat_id > e.repeat_id,
        !(gesture_step(s, e, g, last_y, mappings).2 is SwitchProfile) ==> gesture_step(
            s,
            e,
            g,
            last_y,
            mappings,
        ).0 == s,
{
}

proof fn lemma_strip_key_colon(k: Seq<char>)
    ensures
        is_prefix("key:"@, "key:"@ + k),
        without_prefix("key:"@, "key:"@ + k) == k,
{
    reveal_strlit("key:");
    let a = "key:"@ + k;
    assert(a.subrange(0, 4) =~= "key:"@);
    assert(a.subrange(4, a.len() as int) =~= k);
}

/// In remap mode, a `key:` action mapped to any gesture but a tap (Up, Down, Left, Right,
/// DoubleTap) repeats its key: the count and the key come from what follows `key:` (`20A` is
/// `A` twenty times), the key is sent by `wtype -k`, and the repeat carries the generation
/// current after the stop that precedes it. Without `wtype` there is nothing to repeat.
pub proof fn law_key_actions_repeat(
    s: SessionView,
    e: ExecutorView,
    g: Gesture,
    last_y: Option<i32>,
    mappings: Map<Seq<char>, Seq<char>>,
    k: Seq<char>,
)
    requires
        s.remap,
        g != Gesture::Tap,
        mappings.contains_key(gesture_name(g)),
        mappings[gesture_name(g)] == "key:"@ + k,
        e.repeat_id < u64::MAX - 1,
    ensures
        ({
            let key = wtype_key_name(repeat_key_name(k));
            let (s2, e2, r) = gesture_step(s, e, g, last_y, mappings);
            &&& s2 == s
            &&& e.wtype_available ==> r == ReactionView::Repeat {
                name: gesture_name(g),
                repeat: Some(
                    RepeatPlanView {
                        id: (e.repeat_id + 2) as u64,
                        count: repeat_count(k),
                        key,
                        command: InvocationView { program: "wtype"@, args: seq!["-k"@, key], env: e.hypr_env },
                    },
                ),
            }
            &&& e.wtype_available ==> e2.repeat_id == e.repeat_id + 2
            &&& !e.wtype_available ==> r == ReactionView::Repeat { name: gesture_name(g), repeat: None }
        }),
{
    lemma_strip_key_colon(k);
}

/// In remap mode a consumer key carries out its mapped action exactly on a press (value 1):
/// releases (0), autorepeats (2) and any other value do nothing, as does a key with no mapping.
pub proof fn law_consumer_press_only(name: Seq<char>, value: i32, mappings: Map<Seq<char>, Seq<char>>, e: ExecutorView)
    ensures
        value != 1 ==> consumer_reaction_spec(name, value, true, mappings, e) == ReactionView::Nothing,
        !mappings.contains_key(name) ==> consumer_reaction_spec(name, value, true, mappings, e) == ReactionView::Nothing,
        value == 1 && mappings.contains_key(name) ==> consumer_reaction_spec(name, value, true, mappings, e)
            == (ReactionView::Carry { name, plan: action_plan(e, mappings[name]) }),
        consumer_reaction_spec(name, value, false, mappings, e) is Report,
{
}

} // verus!
