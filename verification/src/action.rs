//! Turning a mapped action (`command:...`, `text:...`, `key:...`, `combo:...`, `mouse:...`)
//! into the external programs that carry it out.
use vstd::prelude::*;
use crate::strmap::StrMap;
use crate::text::{
    contains_char, ends_with, is_prefix, is_suffix, split_char, split_spec, str_eq, strip_prefix, trim, trim_prefix,
    trim_spec, without_prefix,
};

verus! {

/// One external program to run and wait for.
pub struct Invocation {
    pub program: String,
    pub args: Vec<String>,
    /// Variables set in the program's environment, over the inherited ones.
    pub env: StrMap,
}

pub struct InvocationView {
    pub program: Seq<char>,
    pub args: Seq<Seq<char>>,
    pub env: Map<Seq<char>, Seq<char>>,
}

impl View for Invocation {
    type V = InvocationView;

    open spec fn view(&self) -> InvocationView {
        InvocationView {
            program: self.program@,
            args: self.args@.map_values(|a: String| a@),
            env: self.env@,
        }
    }
}

/// What carrying out an action takes.
pub enum ActionPlan {
    /// `passthrough` or an empty action: nothing to do.
    Ignore,
    /// An action in no known format.
    Unknown,
    /// The action types through `wtype`, which is not installed.
    WtypeMissing,
    /// A `mouse:` action naming no known button.
    UnknownMouseButton,
    /// Run these programs, one after another.
    Run(Vec<Invocation>),
}

pub enum PlanView {
    Ignore,
    Unknown,
    WtypeMissing,
    UnknownMouseButton,
    Run(Seq<InvocationView>),
}

pub open spec fn invocations_view(v: Seq<Invocation>) -> Seq<InvocationView> {
    v.map_values(|i: Invocation| i@)
}

impl View for ActionPlan {
    type V = PlanView;

    open spec fn view(&self) -> PlanView {
        match self {
            ActionPlan::Ignore => PlanView::Ignore,
            ActionPlan::Unknown => PlanView::Unknown,
            ActionPlan::WtypeMissing => PlanView::WtypeMissing,
            ActionPlan::UnknownMouseButton => PlanView::UnknownMouseButton,
            ActionPlan::Run(v) => PlanView::Run(invocations_view(v@)),
        }
    }
}

/// A key to send `count` times in the background; a later repeat or a stop cancels it.
pub struct RepeatPlan {
    /// Generation of this repeat: it runs while the executor's generation stays at this value.
    pub id: u64,
    pub count: u32,
    /// The key name as `wtype` takes it.
    pub key: String,
    /// The program that sends the key once.
    pub command: Invocation,
}

/// The mathematical state of an [`ActionExecutor`].
pub struct ExecutorView {
    pub wtype_available: bool,
    pub hypr_env: Map<Seq<char>, Seq<char>>,
    pub sudo_user: Option<Seq<char>>,
    pub base_env: Map<Seq<char>, Seq<char>>,
    pub repeat_id: u64,
}

/// Carries out actions: command/key/text/combo/mouse.
pub struct ActionExecutor {
    wtype_available: bool,
    /// Variables that reach the Hyprland session (`HYPRLAND_INSTANCE_SIGNATURE`, ...).
    hypr_env: StrMap,
    /// The user that invoked `sudo`, when running under it.
    sudo_user: Option<String>,
    /// The environment of this process.
    base_env: StrMap,
    /// Generation of key repeats; each new repeat or stop moves it on.
    repeat_id: u64,
}

impl View for ActionExecutor {
    type V = ExecutorView;

    closed spec fn view(&self) -> ExecutorView {
        ExecutorView {
            wtype_available: self.wtype_available,
            hypr_env: self.hypr_env@,
            sudo_user: match self.sudo_user {
                Some(u) => Some(u@),
                None => None,
            },
            base_env: self.base_env@,
            repeat_id: self.repeat_id,
        }
    }
}

// ----- specification -------------------------------------------------------

/// A key name as `wtype` takes it: without a leading `KEY_`.
pub open spec fn wtype_key_name(k: Seq<char>) -> Seq<char> {
    without_prefix("KEY_"@, k)
}

/// Running `tool` with `args`, as the invoking user when under `sudo`, in the Hyprland environment.
pub open spec fn tool_command(e: ExecutorView, tool: Seq<char>, args: Seq<Seq<char>>) -> InvocationView {
    match e.sudo_user {
        Some(u) => InvocationView {
            program: "sudo"@,
            args: seq!["-u"@, u, "-E"@, tool] + args,
            env: e.hypr_env,
        },
        None => InvocationView { program: tool, args, env: e.hypr_env },
    }
}

pub open spec fn wtype_command(e: ExecutorView, args: Seq<Seq<char>>) -> InvocationView {
    tool_command(e, "wtype"@, args)
}

/// The environment of a shell command: this process's, then the Hyprland variables, then
/// `DISPLAY` and `XDG_CURRENT_DESKTOP` where neither set them.
pub open spec fn command_env(e: ExecutorView) -> Map<Seq<char>, Seq<char>> {
    let m = e.base_env.union_prefer_right(e.hypr_env);
    let m1 = if m.contains_key("DISPLAY"@) { m } else { m.insert("DISPLAY"@, ":1"@) };
    if m1.contains_key("XDG_CURRENT_DESKTOP"@) {
        m1
    } else {
        m1.insert("XDG_CURRENT_DESKTOP"@, "Hyprland"@)
    }
}

pub open spec fn command_plan(e: ExecutorView, cmd: Seq<char>) -> PlanView {
    PlanView::Run(
        seq![InvocationView { program: "sh"@, args: seq!["-c"@, cmd], env: command_env(e) }],
    )
}

/// The `wtype` arguments for one line of text: the line (unless empty), then Enter if asked.
pub open spec fn text_line_args(line: Seq<char>, enter: bool) -> Seq<Seq<Seq<char>>> {
    (if line.len() > 0 { seq![seq![line]] } else { Seq::empty() }) + (if enter {
        seq![seq!["-k"@, "Return"@]]
    } else {
        Seq::empty()
    })
}

/// The `wtype` calls for the first `k` lines: Enter follows every line but the last, and the
/// last too when the text ends in a backslash and `n`.
pub open spec fn text_args_upto(lines: Seq<Seq<char>>, k: int, enter_last: bool) -> Seq<Seq<Seq<char>>>
    decreases k,
{
    if k <= 0 {
        Seq::empty()
    } else {
        text_args_upto(lines, k - 1, enter_last) + text_line_args(
            lines[k - 1],
            k - 1 < lines.len() - 1 || enter_last,
        )
    }
}

pub open spec fn text_args(text: Seq<char>) -> Seq<Seq<Seq<char>>> {
    let lines = split_spec(text, '\n');
    text_args_upto(lines, lines.len() as int, is_suffix("\\n"@, text))
}

pub open spec fn text_plan(e: ExecutorView, text: Seq<char>) -> PlanView {
    if !e.wtype_available {
        PlanView::WtypeMissing
    } else {
        PlanView::Run(text_args(text).map_values(|a: Seq<Seq<char>>| wtype_command(e, a)))
    }
}

pub open spec fn key_plan(e: ExecutorView, key: Seq<char>) -> PlanView {
    if !e.wtype_available {
        PlanView::WtypeMissing
    } else {
        PlanView::Run(seq![wtype_command(e, seq!["-k"@, wtype_key_name(key)])])
    }
}

/// `-P` (press and hold) before each key, in order.
pub open spec fn press_args(keys: Seq<Seq<char>>) -> Seq<Seq<char>>
    decreases keys.len(),
{
    if keys.len() == 0 {
        Seq::empty()
    } else {
        press_args(keys.drop_last()) + seq!["-P"@, keys.last()]
    }
}

/// `-p` (release) before each key, last key first.
pub open spec fn release_args(keys: Seq<Seq<char>>) -> Seq<Seq<char>>
    decreases keys.len(),
{
    if keys.len() == 0 {
        Seq::empty()
    } else {
        release_args(keys.drop_first()) + seq!["-p"@, keys[0]]
    }
}

/// A key combination: every key is pressed and held in order, then all are released in
/// reverse order.
pub open spec fn combo_args(keys: Seq<Seq<char>>) -> Seq<Seq<char>> {
    press_args(keys) + release_args(keys)
}

/// The keys of `A+B+...`, each trimmed and without `KEY_`.
pub open spec fn combo_keys(combo: Seq<char>) -> Seq<Seq<char>> {
    split_spec(combo, '+').map_values(|k: Seq<char>| wtype_key_name(trim_spec(k)))
}

pub open spec fn combo_plan(e: ExecutorView, combo: Seq<char>) -> PlanView {
    if !e.wtype_available {
        PlanView::WtypeMissing
    } else {
        PlanView::Run(seq![wtype_command(e, combo_args(combo_keys(combo)))])
    }
}

/// The `ydotool` button code of a button name.
pub open spec fn mouse_code(btn: Seq<char>) -> Option<Seq<char>> {
    if btn == "left"@ || btn == "Left"@ || btn == "LEFT"@ {
        Some("0xC0"@)
    } else if btn == "right"@ || btn == "Right"@ || btn == "RIGHT"@ {
        Some("0xC1"@)
    } else if btn == "middle"@ || btn == "Middle"@ || btn == "MIDDLE"@ {
        Some("0xC2"@)
    } else {
        None
    }
}

pub open spec fn mouse_plan(e: ExecutorView, btn: Seq<char>) -> PlanView {
    match mouse_code(btn) {
        Some(code) => PlanView::Run(seq![tool_command(e, "ydotool"@, seq!["click"@, code])]),
        None => PlanView::UnknownMouseButton,
    }
}

/// What carrying out `action` takes.
pub open spec fn action_plan(e: ExecutorView, action: Seq<char>) -> PlanView {
    if action == "passthrough"@ || action.len() == 0 {
        PlanView::Ignore
    } else if is_prefix("command:"@, action) {
        command_plan(e, without_prefix("command:"@, action))
    } else if is_prefix("text:"@, action) {
        text_plan(e, without_prefix("text:"@, action))
    } else if is_prefix("key:"@, action) {
        key_plan(e, without_prefix("key:"@, action))
    } else if is_prefix("combo:"@, action) {
        combo_plan(e, without_prefix("combo:"@, action))
    } else if is_prefix("mouse:"@, action) {
        mouse_plan(e, without_prefix("mouse:"@, action))
    } else {
        PlanView::Unknown
    }
}

pub struct RepeatPlanView {
    pub id: u64,
    pub count: u32,
    pub key: Seq<char>,
    pub command: InvocationView,
}

pub open spec fn repeat_plan_view(p: Option<RepeatPlan>) -> Option<RepeatPlanView> {
    match p {
        Some(p) => Some(RepeatPlanView { id: p.id, count: p.count, key: p.key@, command: p.command@ }),
        None => None,
    }
}

/// The executor with its repeat generation moved on, which stops any repeat under way.
pub open spec fn stopped(e: ExecutorView) -> ExecutorView {
    ExecutorView { repeat_id: (e.repeat_id + 1) as u64, ..e }
}

/// Starting a repeat of `key`, `count` times: the executor after, and the repeat, which sends
/// the key through `wtype` directly. Without `wtype`, nothing.
pub open spec fn repeat_spec(e: ExecutorView, key: Seq<char>, count: u32) -> (ExecutorView, Option<RepeatPlanView>) {
    if !e.wtype_available {
        (e, None)
    } else {
        let after = stopped(e);
        (
            after,
            Some(
                RepeatPlanView {
                    id: after.repeat_id,
                    count,
                    key: wtype_key_name(key),
                    command: InvocationView {
                        program: "wtype"@,
                        args: seq!["-k"@, wtype_key_name(key)],
                        env: e.hypr_env,
                    },
                },
            ),
        )
    }
}

// ----- implementation ------------------------------------------------------

/// The keys of the first `i` entries of `m`.
pub open spec fn keys_before(m: StrMap, i: int) -> Set<Seq<char>> {
    Set::new(|k: Seq<char>| exists|j: int| 0 <= j < i && m.key_at(j) == k)
}

fn owned(s: &str) -> (r: String)
    ensures
        r@ == s@,
{
    s.to_owned()
}

impl ActionExecutor {
    /// An executor for a session where `wtype` is or is not installed, with the given
    /// Hyprland variables, `sudo` invoker and process environment.
    pub fn new(wtype_available: bool, hypr_env: StrMap, sudo_user: Option<String>, base_env: StrMap) -> (r: Self)
        ensures
            r@.wtype_available == wtype_available,
            r@.hypr_env == hypr_env@,
            r@.sudo_user == (match sudo_user {
                Some(u) => Some(u@),
                None => None::<Seq<char>>,
            }),
            r@.base_env == base_env@,
            r@.repeat_id == 0,
    {
        ActionExecutor { wtype_available, hypr_env, sudo_user, base_env, repeat_id: 0 }
    }

    /// The current generation of key repeats.
    pub fn repeat_id(&self) -> (r: u64)
        ensures
            r == self@.repeat_id,
    {
        self.repeat_id
    }

    /// `tool` with `args`, through `sudo -u <user> -E` when running under `sudo`.
    fn tool_cmd(&self, tool: &str, args: Vec<String>) -> (r: Invocation)
        ensures
            r@ == tool_command(self@, tool@, args@.map_values(|a: String| a@)),
    {
        match &self.sudo_user {
            Some(user) => {
                let mut all: Vec<String> = Vec::new();
                all.push(owned("-u"));
                all.push(user.clone());
                all.push(owned("-E"));
                all.push(owned(tool));
                let ghost prefix = all@;
                let mut rest = args;
                all.append(&mut rest);
                let r = Invocation { program: owned("sudo"), args: all, env: self.hypr_env.duplicate() };
                assert(r@.args =~= seq!["-u"@, user@, "-E"@, tool@] + args@.map_values(|a: String| a@));
                r
            },
            None => Invocation { program: owned(tool), args, env: self.hypr_env.duplicate() },
        }
    }

    /// The environment of a shell command (see [`command_env`]).
    fn command_env(&self) -> (r: StrMap)
        ensures
            r@ == command_env(self@),
    {
        let mut env = self.base_env.duplicate();
        let n = self.hypr_env.len();
        let ghost hypr = self.hypr_env;
        let mut i: usize = 0;
        assert(hypr@.restrict(Set::empty()) =~= Map::empty());
        assert(env@ =~= self.base_env@.union_prefer_right(hypr@.restrict(keys_before(hypr, 0))));
        while i < n
            invariant
                n == hypr@.len(),
                hypr == self.hypr_env,
                i <= n,
                forall|k: Seq<char>| #[trigger] hypr@.contains_key(k) ==> exists|j: int|
                    0 <= j < n && hypr.key_at(j) == k,
                forall|j: int| 0 <= j < n ==> hypr@.contains_key(#[trigger] hypr.key_at(j)),
                env@ == self.base_env@.union_prefer_right(hypr@.restrict(keys_before(hypr, i as int))),
            decreases n - i,
        {
            let (k, v) = self.hypr_env.entry(i);
            env.insert(owned(k), owned(v));
            assert(keys_before(hypr, i + 1) =~= keys_before(hypr, i as int).insert(k@));
            assert(env@ =~= self.base_env@.union_prefer_right(hypr@.restrict(keys_before(hypr, i + 1))));
            i = i + 1;
        }
        assert(hypr@.restrict(keys_before(hypr, n as int)) =~= hypr@);
        if !env.contains_key("DISPLAY") {
            env.insert(owned("DISPLAY"), owned(":1"));
        }
        if !env.contains_key("XDG_CURRENT_DESKTOP") {
            env.insert(owned("XDG_CURRENT_DESKTOP"), owned("Hyprland"));
        }
        env
    }

    /// Runs `cmd` through `sh -c`.
    pub fn run_command(&self, cmd: &str) -> (r: ActionPlan)
        ensures
            r@ == command_plan(self@, cmd@),
    {
        let mut args: Vec<String> = Vec::new();
        args.push(owned("-c"));
        args.push(owned(cmd));
        let mut v: Vec<Invocation> = Vec::new();
        v.push(Invocation { program: owned("sh"), args, env: self.command_env() });
        assert(invocations_view(v@) =~= seq![v@[0]@]);
        assert(v@[0]@.args =~= seq!["-c"@, cmd@]);
        ActionPlan::Run(v)
    }

    fn wtype_cmd(&self, args: Vec<String>) -> (r: Invocation)
        ensures
            r@ == wtype_command(self@, args@.map_values(|a: String| a@)),
    {
        self.tool_cmd("wtype", args)
    }

    /// Sends one key through `wtype`.
    pub fn type_key(&self, key: &str) -> (r: ActionPlan)
        ensures
            r@ == key_plan(self@, key@),
    {
        if !self.wtype_available {
            return ActionPlan::WtypeMissing;
        }
        let mut args: Vec<String> = Vec::new();
        args.push(owned("-k"));
        args.push(owned(trim_prefix(key, "KEY_")));
        assert(args@.map_values(|a: String| a@) =~= seq!["-k"@, wtype_key_name(key@)]);
        let mut v: Vec<Invocation> = Vec::new();
        v.push(self.wtype_cmd(args));
        assert(invocations_view(v@) =~= seq![v@[0]@]);
        ActionPlan::Run(v)
    }

    /// Clicks a mouse button through `ydotool`.
    pub fn type_mouse(&self, btn: &str) -> (r: ActionPlan)
        ensures
            r@ == mouse_plan(self@, btn@),
    {
        proof {
            reveal_strlit("left");
            reveal_strlit("Left");
            reveal_strlit("LEFT");
            reveal_strlit("right");
            reveal_strlit("Right");
            reveal_strlit("RIGHT");
            reveal_strlit("middle");
            reveal_strlit("Middle");
            reveal_strlit("MIDDLE");
        }
        let code = if str_eq(btn, "left") || str_eq(btn, "Left") || str_eq(btn, "LEFT") {
            "0xC0"
        } else if str_eq(btn, "right") || str_eq(btn, "Right") || str_eq(btn, "RIGHT") {
            "0xC1"
        } else if str_eq(btn, "middle") || str_eq(btn, "Middle") || str_eq(btn, "MIDDLE") {
            "0xC2"
        } else {
            return ActionPlan::UnknownMouseButton;
        };
        let mut args: Vec<String> = Vec::new();
        args.push(owned("click"));
        args.push(owned(code));
        assert(args@.map_values(|a: String| a@) =~= seq!["click"@, code@]);
        let mut v: Vec<Invocation> = Vec::new();
        v.push(self.tool_cmd("ydotool", args));
        assert(invocations_view(v@) =~= seq![v@[0]@]);
        ActionPlan::Run(v)
    }

    /// Sends a key combination (`A+B+...`) through one `wtype` call.
    pub fn type_combo(&self, combo: &str) -> (r: ActionPlan)
        ensures
            r@ == combo_plan(self@, combo@),
    {
        if !self.wtype_available {
            return ActionPlan::WtypeMissing;
        }
        let pieces_v = split_char(combo, '+');
        let ghost pieces = split_spec(combo@, '+');
        let ghost ks = combo_keys(combo@);
        let n = pieces_v.len();
        assert(ks.len() == n);
        let mut keys: Vec<&str> = Vec::new();
        let mut i: usize = 0;
        while i < n
            invariant
                n == pieces_v@.len(),
                pieces_v@.map_values(|t: &str| t@) == pieces,
                ks == pieces.map_values(|k: Seq<char>| wtype_key_name(trim_spec(k))),
                i <= n,
                ks.len() == n,
                keys@.len() == i,
                keys@.map_values(|t: &str| t@) == ks.subrange(0, i as int),
            decreases n - i,
        {
            assert(pieces_v@[i as int]@ == pieces[i as int]);
            assert(ks[i as int] == wtype_key_name(trim_spec(pieces[i as int])));
            let k = trim_prefix(trim(pieces_v[i]), "KEY_");
            assert(k@ == ks[i as int]);
            let ghost before = keys@;
            keys.push(k);
            assert(keys@ == before.push(k));
            assert(ks.len() == n);
            let ghost kv = keys@.map_values(|t: &str| t@);
            assert forall|j: int| 0 <= j <= i implies #[trigger] kv[j] == ks[j] by {
                if j < i {
                    assert(before.map_values(|t: &str| t@)[j] == ks.subrange(0, i as int)[j]);
                    assert(keys@[j] == before[j]);
                }
            }
            assert(keys@.map_values(|t: &str| t@) =~= ks.subrange(0, i + 1));
            i = i + 1;
        }
        assert(ks.subrange(0, n as int) =~= ks);
        let mut args: Vec<String> = Vec::new();
        let mut i: usize = 0;
        while i < n
            invariant
                n == keys@.len(),
                keys@.map_values(|t: &str| t@) == ks,
                i <= n,
                args@.map_values(|a: String| a@) == press_args(ks.subrange(0, i as int)),
            decreases n - i,
        {
            args.push(owned("-P"));
            args.push(owned(keys[i]));
            assert(ks.subrange(0, i + 1).drop_last() =~= ks.subrange(0, i as int));
            assert(args@.map_values(|a: String| a@) =~= press_args(ks.subrange(0, i + 1)));
            i = i + 1;
        }
        let ghost pressed = args@.map_values(|a: String| a@);
        assert(ks.subrange(n as int, n as int) =~= Seq::<Seq<char>>::empty());
        assert(pressed =~= pressed + release_args(ks.subrange(n as int, n as int)));
        let mut j: usize = n;
        while j > 0
            invariant
                n == keys@.len(),
                keys@.map_values(|t: &str| t@) == ks,
                j <= n,
                args@.map_values(|a: String| a@) == pressed + release_args(ks.subrange(j as int, n as int)),
            decreases j,
        {
            j = j - 1;
            let ghost before = args@.map_values(|a: String| a@);
            args.push(owned("-p"));
            args.push(owned(keys[j]));
            assert(keys@[j as int]@ == ks[j as int]);
            assert(ks.subrange(j as int, n as int).drop_first() =~= ks.subrange(j + 1, n as int));
            assert(ks.subrange(j as int, n as int)[0] == ks[j as int]);
            assert(release_args(ks.subrange(j as int, n as int)) == release_args(ks.subrange(j + 1, n as int))
                + seq!["-p"@, ks[j as int]]);
            assert(args@.map_values(|a: String| a@) =~= before + seq!["-p"@, ks[j as int]]);
            assert(args@.map_values(|a: String| a@) =~= pressed + release_args(ks.subrange(j as int, n as int)));
        }
        assert(ks.subrange(0, n as int) =~= ks);
        assert(args@.map_values(|a: String| a@) =~= combo_args(ks));
        let mut v: Vec<Invocation> = Vec::new();
        v.push(self.wtype_cmd(args));
        assert(invocations_view(v@) =~= seq![v@[0]@]);
        ActionPlan::Run(v)
    }

    /// Types text through `wtype`, one call per line, pressing Enter between lines.
    pub fn type_text(&self, text: &str) -> (r: ActionPlan)
        ensures
            r@ == text_plan(self@, text@),
    {
        if !self.wtype_available {
            return ActionPlan::WtypeMissing;
        }
        let parts = split_char(text, '\n');
        let ghost lines = split_spec(text@, '\n');
        let enter_last = ends_with(text, "\\n");
        let n = parts.len();
        let mut v: Vec<Invocation> = Vec::new();
        let mut i: usize = 0;
        while i < n
            invariant
                n == parts@.len(),
                parts@.map_values(|t: &str| t@) == lines,
                enter_last == is_suffix("\\n"@, text@),
                i <= n,
                invocations_view(v@) == text_args_upto(lines, i as int, enter_last).map_values(
                    |a: Seq<Seq<char>>| wtype_command(self@, a),
                ),
            decreases n - i,
        {
            let part = parts[i];
            assert(part@ == lines[i as int]);
            let ghost before = invocations_view(v@);
            let ghost step = text_line_args(lines[i as int], i < n - 1 || enter_last);
            if !part.is_empty() {
                let mut args: Vec<String> = Vec::new();
                args.push(owned(part));
                assert(args@.map_values(|a: String| a@) =~= seq![part@]);
                v.push(self.wtype_cmd(args));
            }
            if i < n - 1 || enter_last {
                let mut args: Vec<String> = Vec::new();
                args.push(owned("-k"));
                args.push(owned("Return"));
                assert(args@.map_values(|a: String| a@) =~= seq!["-k"@, "Return"@]);
                v.push(self.wtype_cmd(args));
            }
            assert(invocations_view(v@) =~= before + step.map_values(|a: Seq<Seq<char>>| wtype_command(self@, a)));
            assert(text_args_upto(lines, i + 1, enter_last) == text_args_upto(lines, i as int, enter_last) + step);
            assert((text_args_upto(lines, i as int, enter_last) + step).map_values(|a: Seq<Seq<char>>| wtype_command(self@, a))
                =~= text_args_upto(lines, i as int, enter_last).map_values(|a: Seq<Seq<char>>| wtype_command(self@, a))
                    + step.map_values(|a: Seq<Seq<char>>| wtype_command(self@, a)));
            i = i + 1;
        }
        ActionPlan::Run(v)
    }

    /// Starts a repeat of `key`, `count` times (e.g. 20 from `"key:20W"`). A repeat runs while
    /// the generation it carries is current: this call moves the generation on, so that any
    /// repeat under way stops. Without `wtype` nothing starts and nothing changes.
    pub fn repeat_key(&mut self, key: &str, count: u32) -> (r: Option<RepeatPlan>)
        requires
            old(self)@.wtype_available ==> old(self)@.repeat_id < u64::MAX,
        ensures
            (final(self)@, repeat_plan_view(r)) == repeat_spec(old(self)@, key@, count),
    {
        if !self.wtype_available {
            return None;
        }
        let name = trim_prefix(key, "KEY_");
        self.repeat_id = self.repeat_id + 1;
        let mut args: Vec<String> = Vec::new();
        args.push(owned("-k"));
        args.push(owned(name));
        assert(args@.map_values(|a: String| a@) =~= seq!["-k"@, name@]);
        let command = Invocation { program: owned("wtype"), args, env: self.hypr_env.duplicate() };
        Some(RepeatPlan { id: self.repeat_id, count, key: owned(name), command })
    }

    /// Whether a repeat sends its key once more: while its generation is the current one
    /// (`current`) and fewer than its count of keys went out (`sent`).
    pub fn repeat_continues(plan: &RepeatPlan, current: u64, sent: u32) -> (r: bool)
        ensures
            r == (current == plan.id && sent < plan.count),
    {
        current == plan.id && sent < plan.count
    }

    /// Cancels any key repeat under way, by moving the generation on.
    pub fn stop_repeat(&mut self)
        requires
            old(self)@.repeat_id < u64::MAX,
        ensures
            final(self)@ == stopped(old(self)@),
    {
        self.repeat_id = self.repeat_id + 1;
    }

    /// What carrying out `action` takes: `passthrough` and the empty action do nothing;
    /// `command:`, `text:`, `key:`, `combo:` and `mouse:` say how to carry out the rest.
    pub fn execute(&self, action: &str) -> (r: ActionPlan)
        ensures
            r@ == action_plan(self@, action@),
    {
        if str_eq(action, "passthrough") || action.is_empty() {
            return ActionPlan::Ignore;
        }
        if let Some(cmd) = strip_prefix(action, "command:") {
            self.run_command(cmd)
        } else if let Some(text) = strip_prefix(action, "text:") {
            self.type_text(text)
        } else if let Some(key) = strip_prefix(action, "key:") {
            self.type_key(key)
        } else if let Some(combo) = strip_prefix(action, "combo:") {
            self.type_combo(combo)
        } else if let Some(btn) = strip_prefix(action, "mouse:") {
            self.type_mouse(btn)
        } else {
            ActionPlan::Unknown
        }
    }
}

// ----- the Hyprland session -------------------------------------------------

/// What is known of one user runtime directory (`/run/user/<uid>`).
pub struct RuntimeDir {
    /// Its path.
    pub path: String,
    /// The names of the directories in its `hypr` directory, in listing order.
    pub hypr_instances: Vec<String>,
    /// Whether it holds a `wayland-1` socket.
    pub has_wayland_1: bool,
    /// Whether it holds a `wayland-0` socket.
    pub has_wayland_0: bool,
}

pub struct RuntimeDirView {
    pub path: Seq<char>,
    pub hypr_instances: Seq<Seq<char>>,
    pub has_wayland_1: bool,
    pub has_wayland_0: bool,
}

impl View for RuntimeDir {
    type V = RuntimeDirView;

    open spec fn view(&self) -> RuntimeDirView {
        RuntimeDirView {
            path: self.path@,
            hypr_instances: self.hypr_instances@.map_values(|s: String| s@),
            has_wayland_1: self.has_wayland_1,
            has_wayland_0: self.has_wayland_0,
        }
    }
}

/// The first name that looks like a Hyprland instance signature (holds a `_`).
pub open spec fn first_signature(names: Seq<Seq<char>>) -> Option<Seq<char>>
    decreases names.len(),
{
    if names.len() == 0 {
        None
    } else if names[0].contains('_') {
        Some(names[0])
    } else {
        first_signature(names.drop_first())
    }
}

/// The Hyprland variables found in the first `k` directories: the last directory with a
/// signature gives `HYPRLAND_INSTANCE_SIGNATURE` and `XDG_RUNTIME_DIR`.
pub open spec fn signature_env(dirs: Seq<RuntimeDirView>, k: int) -> Map<Seq<char>, Seq<char>>
    decreases k,
{
    if k <= 0 {
        Map::empty()
    } else {
        let prev = signature_env(dirs, k - 1);
        match first_signature(dirs[k - 1].hypr_instances) {
            Some(sig) => prev.insert("HYPRLAND_INSTANCE_SIGNATURE"@, sig).insert(
                "XDG_RUNTIME_DIR"@,
                dirs[k - 1].path,
            ),
            None => prev,
        }
    }
}

/// Index of the first directory holding the Wayland socket (`-1` for `wayland-1`, `-0` for `wayland-0`).
pub open spec fn first_with_socket(dirs: Seq<RuntimeDirView>, one: bool) -> Option<int> {
    if exists|i: int| 0 <= i < dirs.len() && (if one { dirs[i].has_wayland_1 } else { dirs[i].has_wayland_0 }) {
        Some(
            choose|i: int|
                0 <= i < dirs.len() && (if one { dirs[i].has_wayland_1 } else { dirs[i].has_wayland_0 })
                    && forall|j: int| 0 <= j < i ==> !(if one { dirs[j].has_wayland_1 } else { dirs[j].has_wayland_0 }),
        )
    } else {
        None
    }
}

/// Adds the Wayland display of the first directory holding the socket, with that directory as
/// `XDG_RUNTIME_DIR` unless one is set.
pub open spec fn with_wayland(env: Map<Seq<char>, Seq<char>>, dirs: Seq<RuntimeDirView>, one: bool) -> Map<Seq<char>, Seq<char>> {
    match first_with_socket(dirs, one) {
        Some(i) => {
            let e = env.insert("WAYLAND_DISPLAY"@, if one { "wayland-1"@ } else { "wayland-0"@ });
            if e.contains_key("XDG_RUNTIME_DIR"@) {
                e
            } else {
                e.insert("XDG_RUNTIME_DIR"@, dirs[i].path)
            }
        },
        None => env,
    }
}

/// The variables that reach the Hyprland session from a service: the instance signature and
/// runtime directory, and the Wayland display (`wayland-1` looked for first, `wayland-0` after,
/// so that `wayland-0` wins where both exist).
pub open spec fn hypr_env_spec(dirs: Seq<RuntimeDirView>) -> Map<Seq<char>, Seq<char>> {
    with_wayland(with_wayland(signature_env(dirs, dirs.len() as int), dirs, true), dirs, false)
}

pub open spec fn dirs_view(dirs: Seq<RuntimeDir>) -> Seq<RuntimeDirView> {
    dirs.map_values(|d: RuntimeDir| d@)
}

/// The first of `names` that holds a `_`.
fn find_signature(names: &Vec<String>) -> (r: Option<&String>)
    ensures
        match first_signature(names@.map_values(|s: String| s@)) {
            Some(sig) => r matches Some(s) && s@ == sig,
            None => r is None,
        },
{
    let n = names.len();
    let ghost all = names@.map_values(|s: String| s@);
    let mut i: usize = 0;
    assert(all.subrange(0, n as int) =~= all);
    while i < n
        invariant
            n == names@.len(),
            all == names@.map_values(|s: String| s@),
            i <= n,
            first_signature(all) == first_signature(all.subrange(i as int, n as int)),
        decreases n - i,
    {
        let ghost rest = all.subrange(i as int, n as int);
        assert(rest.drop_first() =~= all.subrange(i + 1, n as int));
        assert(rest[0] == names@[i as int]@);
        if contains_char(names[i].as_str(), '_') {
            return Some(&names[i]);
        }
        i = i + 1;
    }
    None
}

/// The Hyprland session variables found in `dirs`, the user runtime directories in listing order.
pub fn hypr_env_from_dirs(dirs: &Vec<RuntimeDir>) -> (r: StrMap)
    ensures
        r@ == hypr_env_spec(dirs_view(dirs@)),
{
    let ghost dv = dirs_view(dirs@);
    let n = dirs.len();
    let mut env = StrMap::new();
    let mut i: usize = 0;
    while i < n
        invariant
            n == dirs@.len(),
            dv == dirs_view(dirs@),
            i <= n,
            env@ == signature_env(dv, i as int),
        decreases n - i,
    {
        let d = &dirs[i];
        assert(dv[i as int] == d@);
        if let Some(sig) = find_signature(&d.hypr_instances) {
            env.insert(owned("HYPRLAND_INSTANCE_SIGNATURE"), sig.clone());
            env.insert(owned("XDG_RUNTIME_DIR"), d.path.clone());
        }
        i = i + 1;
    }
    add_wayland(&mut env, dirs, true);
    add_wayland(&mut env, dirs, false);
    env
}

fn add_wayland(env: &mut StrMap, dirs: &Vec<RuntimeDir>, one: bool)
    ensures
        final(env)@ == with_wayland(old(env)@, dirs_view(dirs@), one),
{
    let ghost dv = dirs_view(dirs@);
    let n = dirs.len();
    let mut i: usize = 0;
    while i < n
        invariant
            n == dirs@.len(),
            dv == dirs_view(dirs@),
            i <= n,
            *env == *old(env),
            forall|j: int| 0 <= j < i ==> !(if one { dv[j].has_wayland_1 } else { dv[j].has_wayland_0 }),
        decreases n - i,
    {
        let d = &dirs[i];
        assert(dv[i as int] == d@);
        let has = if one { d.has_wayland_1 } else { d.has_wayland_0 };
        if has {
            proof {
                let w = first_with_socket(dv, one);
                assert(w == Some(i as int));
            }
            env.insert(owned("WAYLAND_DISPLAY"), if one { owned("wayland-1") } else { owned("wayland-0") });
            if !env.contains_key("XDG_RUNTIME_DIR") {
                env.insert(owned("XDG_RUNTIME_DIR"), d.path.clone());
            }
            return;
        }
        i = i + 1;
    }
}

} // verus!

verus! {

// ----- laws ------------------------------------------------------------------

/// `passthrough` and the empty action do nothing.
pub proof fn law_passthrough_does_nothing(e: ExecutorView)
    ensures
        action_plan(e, "passthrough"@) == PlanView::Ignore,
        action_plan(e, Seq::<char>::empty()) == PlanView::Ignore,
{
}

/// Key names may be written with or without `KEY_`: `KEY_1` and `1` send the same key.
pub proof fn law_key_prefix_optional(k: Seq<char>)
    ensures
        wtype_key_name("KEY_"@ + k) == k,
        !is_prefix("KEY_"@, k) ==> wtype_key_name(k) == k,
{
    let p = "KEY_"@ + k;
    assert(p.subrange(0, 4) =~= "KEY_"@) by {
        reveal_strlit("KEY_");
    }
    assert(p.subrange(4, p.len() as int) =~= k) by {
        reveal_strlit("KEY_");
    }
    reveal_strlit("KEY_");
}

/// Text on one line, not ending in a backslash and `n`, is typed by one `wtype` call.
pub proof fn law_one_line_text(e: ExecutorView, t: Seq<char>)
    requires
        e.wtype_available,
        t.len() > 0,
        !t.contains('\n'),
        !is_suffix("\\n"@, t),
    ensures
        text_plan(e, t) == PlanView::Run(seq![wtype_command(e, seq![t])]),
{
    crate::text::law_split_without_separator(t, '\n');
    let lines = split_spec(t, '\n');
    assert(text_args_upto(lines, 0, false) =~= Seq::<Seq<Seq<char>>>::empty());
    assert(text_args(t) =~= seq![seq![t]]);
    assert(text_args(t).map_values(|a: Seq<Seq<char>>| wtype_command(e, a)) =~= seq![wtype_command(e, seq![t])]);
}

/// A new repeat, or a stop, leaves no earlier repeat current: the generation moves past every
/// generation handed out before.
pub proof fn law_new_repeat_cancels_earlier(e: ExecutorView, key: Seq<char>, count: u32, earlier: u64)
    requires
        e.repeat_id < u64::MAX,
        earlier <= e.repeat_id,
    ensures
        stopped(e).repeat_id != earlier,
        e.wtype_available ==> repeat_spec(e, key, count).0.repeat_id != earlier,
        e.wtype_available ==> (repeat_spec(e, key, count).1 matches Some(p) && p.id == repeat_spec(
            e,
            key,
            count,
        ).0.repeat_id),
{
}

/// A shell command sees the Hyprland variables, and always has `DISPLAY` and
/// `XDG_CURRENT_DESKTOP`; variables of this process that the Hyprland ones do not set pass on
/// unchanged.
pub proof fn law_command_env(e: ExecutorView)
    ensures
        forall|k: Seq<char>| #[trigger] e.hypr_env.contains_key(k) ==> command_env(e).contains_key(k)
            && command_env(e)[k] == e.hypr_env[k],
        forall|k: Seq<char>|
            #[trigger] e.base_env.contains_key(k) && !e.hypr_env.contains_key(k) ==> command_env(e).contains_key(k)
                && command_env(e)[k] == e.base_env[k],
        command_env(e).contains_key("DISPLAY"@),
        command_env(e).contains_key("XDG_CURRENT_DESKTOP"@),
{
    reveal_strlit("DISPLAY");
    reveal_strlit("XDG_CURRENT_DESKTOP");
    assert("DISPLAY"@ != "XDG_CURRENT_DESKTOP"@) by {
        assert("DISPLAY"@.len() != "XDG_CURRENT_DESKTOP"@.len());
    }
}

/// The `i`-th pair of arguments: an option and the key it applies to.
pub open spec fn arg_pair(args: Seq<Seq<char>>, i: int) -> (Seq<char>, Seq<char>) {
    (args[2 * i], args[2 * i + 1])
}

proof fn lemma_press_args(keys: Seq<Seq<char>>)
    ensures
        press_args(keys).len() == 2 * keys.len(),
        forall|i: int| 0 <= i < keys.len() ==> #[trigger] arg_pair(press_args(keys), i) == ("-P"@, keys[i]),
    decreases keys.len(),
{
    if keys.len() > 0 {
        let d = keys.drop_last();
        lemma_press_args(d);
        assert forall|i: int| 0 <= i < keys.len() implies #[trigger] arg_pair(press_args(keys), i) == ("-P"@, keys[i]) by {
            if i < keys.len() - 1 {
                assert(arg_pair(press_args(d), i) == ("-P"@, d[i]));
            }
        }
    }
}

proof fn lemma_release_args(keys: Seq<Seq<char>>)
    ensures
        release_args(keys).len() == 2 * keys.len(),
        forall|j: int| 0 <= j < keys.len() ==> #[trigger] arg_pair(release_args(keys), j) == ("-p"@, keys[keys.len() - 1 - j]),
    decreases keys.len(),
{
    if keys.len() > 0 {
        let d = keys.drop_first();
        lemma_release_args(d);
        assert forall|j: int| 0 <= j < keys.len() implies #[trigger] arg_pair(release_args(keys), j) == ("-p"@, keys[keys.len() - 1 - j]) by {
            if j < keys.len() - 1 {
                assert(arg_pair(release_args(d), j) == ("-p"@, d[d.len() - 1 - j]));
            }
        }
    }
}

/// A combination holds its keys: `wtype` is told to press and hold each key in order (`-P`),
/// then to release them all, last key first (`-p`); the keys are the parts between `+`,
/// trimmed and without `KEY_`. `LEFTMETA+TAB` gives `-P LEFTMETA -P TAB -p TAB -p LEFTMETA`.
pub proof fn law_combo_holds_keys(e: ExecutorView, combo: Seq<char>)
    requires
        e.wtype_available,
    ensures
        ({
            let ks = combo_keys(combo);
            let n = ks.len() as int;
            let args = combo_args(ks);
            &&& combo_plan(e, combo) == PlanView::Run(seq![wtype_command(e, args)])
            &&& ks.len() == split_spec(combo, '+').len()
            &&& forall|i: int| 0 <= i < n ==> ks[i] == wtype_key_name(trim_spec(#[trigger] split_spec(combo, '+')[i]))
            &&& args.len() == 4 * n
            &&& forall|i: int| 0 <= i < n ==> #[trigger] arg_pair(args, i) == ("-P"@, ks[i])
            &&& forall|j: int| 0 <= j < n ==> #[trigger] arg_pair(args, n + j) == ("-p"@, ks[n - 1 - j])
        }),
{
    let ks = combo_keys(combo);
    let n = ks.len() as int;
    lemma_press_args(ks);
    lemma_release_args(ks);
    let args = combo_args(ks);
    assert forall|i: int| 0 <= i < n implies #[trigger] arg_pair(args, i) == ("-P"@, ks[i]) by {
        assert(arg_pair(press_args(ks), i) == ("-P"@, ks[i]));
    }
    assert forall|j: int| 0 <= j < n implies #[trigger] arg_pair(args, n + j) == ("-p"@, ks[n - 1 - j]) by {
        assert(arg_pair(release_args(ks), j) == ("-p"@, ks[n - 1 - j]));
        assert(args[2 * (n + j)] == release_args(ks)[2 * j]);
        assert(args[2 * (n + j) + 1] == release_args(ks)[2 * j + 1]);
    }
}

/// A `key:` action presses and releases one key (`wtype -k`), named without a leading `KEY_`.
pub proof fn law_key_action(e: ExecutorView, key: Seq<char>)
    requires
        e.wtype_available,
    ensures
        key_plan(e, key) == PlanView::Run(seq![wtype_command(e, seq!["-k"@, wtype_key_name(key)])]),
{
}

/// Two repeats in a row: after the second, the first repeat's generation is stale and the
/// second's is current.
pub proof fn law_second_repeat_supersedes_first(e: ExecutorView, k1: Seq<char>, n1: u32, k2: Seq<char>, n2: u32)
    requires
        e.wtype_available,
        e.repeat_id < u64::MAX - 1,
    ensures
        ({
            let (e1, p1) = repeat_spec(e, k1, n1);
            let (e2, p2) = repeat_spec(e1, k2, n2);
            &&& p1 matches Some(a) && a.id != e2.repeat_id
            &&& p2 matches Some(b) && b.id == e2.repeat_id && b.count == n2
        }),
{
}

/// Stopping twice in a row cancels the same repeats as stopping once: every generation handed
/// out before either stop is stale after both.
pub proof fn law_stop_twice(e: ExecutorView, earlier: u64)
    requires
        e.repeat_id < u64::MAX - 1,
        earlier <= e.repeat_id,
    ensures
        stopped(e).repeat_id != earlier,
        stopped(stopped(e)).repeat_id != earlier,
        stopped(stopped(e)).wtype_available == e.wtype_available,
        stopped(stopped(e)).hypr_env == e.hypr_env,
{
}

/// An action that begins with `mouse:` is a mouse action on what follows.
proof fn lemma_mouse_action(e: ExecutorView, b: Seq<char>)
    ensures
        action_plan(e, "mouse:"@ + b) == mouse_plan(e, b),
{
    reveal_strlit("mouse:");
    reveal_strlit("passthrough");
    reveal_strlit("command:");
    reveal_strlit("text:");
    reveal_strlit("key:");
    reveal_strlit("combo:");
    let a = "mouse:"@ + b;
    assert(a[0] == 'm');
    assert(a != "passthrough"@) by {
        assert("passthrough"@[0] == 'p');
    }
    assert(!is_prefix("command:"@, a)) by {
        if is_prefix("command:"@, a) {
            assert(a.subrange(0, 8)[0] == a[0]);
        }
    }
    assert(!is_prefix("text:"@, a)) by {
        if is_prefix("text:"@, a) {
            assert(a.subrange(0, 5)[0] == a[0]);
        }
    }
    assert(!is_prefix("key:"@, a)) by {
        if is_prefix("key:"@, a) {
            assert(a.subrange(0, 4)[0] == a[0]);
        }
    }
    assert(!is_prefix("combo:"@, a)) by {
        if is_prefix("combo:"@, a) {
            assert(a.subrange(0, 6)[0] == a[0]);
        }
    }
    assert(a.subrange(0, 6) =~= "mouse:"@);
    assert(a.subrange(6, a.len() as int) =~= b);
}

/// `mouse:` clicks the named button through `ydotool`: `left`, `Left` and `LEFT` click `0xC0`,
/// `right`, `Right` and `RIGHT` click `0xC1`, `middle`, `Middle` and `MIDDLE` click `0xC2`.
pub proof fn law_mouse_buttons(e: ExecutorView, b: Seq<char>)
    ensures
        (b == "left"@ || b == "Left"@ || b == "LEFT"@) ==> action_plan(e, "mouse:"@ + b) == PlanView::Run(
            seq![tool_command(e, "ydotool"@, seq!["click"@, "0xC0"@])],
        ),
        (b == "right"@ || b == "Right"@ || b == "RIGHT"@) ==> action_plan(e, "mouse:"@ + b) == PlanView::Run(
            seq![tool_command(e, "ydotool"@, seq!["click"@, "0xC1"@])],
        ),
        (b == "middle"@ || b == "Middle"@ || b == "MIDDLE"@) ==> action_plan(e, "mouse:"@ + b) == PlanView::Run(
            seq![tool_command(e, "ydotool"@, seq!["click"@, "0xC2"@])],
        ),
{
    lemma_mouse_action(e, b);
    reveal_strlit("left");
    reveal_strlit("Left");
    reveal_strlit("LEFT");
    reveal_strlit("right");
    reveal_strlit("Right");
    reveal_strlit("RIGHT");
    reveal_strlit("middle");
    reveal_strlit("Middle");
    reveal_strlit("MIDDLE");
}

proof fn lemma_text_lines_prefix(lines: Seq<Seq<char>>, k: int, el: bool)
    requires
        0 <= k < lines.len(),
        forall|i: int| 0 <= i < lines.len() ==> (#[trigger] lines[i]).len() > 0,
    ensures
        text_args_upto(lines, k, el).len() == 2 * k,
        forall|i: int| 0 <= i < k ==> text_args_upto(lines, k, el)[2 * i] == seq![#[trigger] lines[i]],
        forall|i: int| 0 <= i < k ==> #[trigger] text_args_upto(lines, k, el)[2 * i + 1] == seq!["-k"@, "Return"@],
    decreases k,
{
    if k > 0 {
        lemma_text_lines_prefix(lines, k - 1, el);
        let prev = text_args_upto(lines, k - 1, el);
        let cur = text_args_upto(lines, k, el);
        assert(cur =~= prev + seq![seq![lines[k - 1]], seq!["-k"@, "Return"@]]);
        assert forall|i: int| 0 <= i < k implies cur[2 * i] == seq![#[trigger] lines[i]] by {
            if i < k - 1 {
                assert(cur[2 * i] == prev[2 * i]);
            }
        }
        assert forall|i: int| 0 <= i < k implies #[trigger] cur[2 * i + 1] == seq!["-k"@, "Return"@] by {
            if i < k - 1 {
                assert(cur[2 * i + 1] == prev[2 * i + 1]);
            }
        }
    }
}

/// Text is typed line by line (the lines are what lies between newlines), with Enter between
/// each line and the next: for lines `l0..l(n-1)`, none empty, the `wtype` calls are `l0`,
/// Enter, `l1`, Enter, ..., `l(n-1)`, and one more Enter when the text ends in a backslash
/// and `n`.
pub proof fn law_text_lines(e: ExecutorView, t: Seq<char>)
    requires
        forall|i: int| 0 <= i < split_spec(t, '\n').len() ==> (#[trigger] split_spec(t, '\n')[i]).len() > 0,
    ensures
        ({
            let lines = split_spec(t, '\n');
            let n = lines.len() as int;
            let calls = text_args(t);
            let el = is_suffix("\\n"@, t);
            &&& calls.len() == (if el { 2 * n } else { 2 * n - 1 })
            &&& forall|i: int| 0 <= i < n ==> calls[2 * i] == seq![#[trigger] lines[i]]
            &&& forall|i: int| 0 <= i < n - 1 ==> #[trigger] calls[2 * i + 1] == seq!["-k"@, "Return"@]
            &&& el ==> calls[2 * n - 1] == seq!["-k"@, "Return"@]
            &&& e.wtype_available ==> text_plan(e, t) == PlanView::Run(
                calls.map_values(|a: Seq<Seq<char>>| wtype_command(e, a)),
            )
        }),
{
    let lines = split_spec(t, '\n');
    let n = lines.len() as int;
    let el = is_suffix("\\n"@, t);
    crate::text::law_split_pieces_are_separator_free(t, '\n');
    lemma_text_lines_prefix(lines, n - 1, el);
    let prev = text_args_upto(lines, n - 1, el);
    let calls = text_args(t);
    assert(lines[n - 1].len() > 0);
    if el {
        assert(calls =~= prev + seq![seq![lines[n - 1]], seq!["-k"@, "Return"@]]);
    } else {
        assert(calls =~= prev + seq![seq![lines[n - 1]]]);
    }
    assert forall|i: int| 0 <= i < n implies calls[2 * i] == seq![#[trigger] lines[i]] by {
        if i < n - 1 {
            assert(calls[2 * i] == prev[2 * i]);
        }
    }
    assert forall|i: int| 0 <= i < n - 1 implies #[trigger] calls[2 * i + 1] == seq!["-k"@, "Return"@] by {
        assert(calls[2 * i + 1] == prev[2 * i + 1]);
    }
}

} // verus!
