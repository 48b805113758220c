use s10_ringctrl::action::{hypr_env_from_dirs, ActionExecutor, ActionPlan, Invocation, RuntimeDir};
use s10_ringctrl::strmap::StrMap;

fn map(pairs: &[(&str, &str)]) -> StrMap {
    let mut m = StrMap::new();
    for (k, v) in pairs {
        m.insert(k.to_string(), v.to_string());
    }
    m
}

fn executor(wtype: bool, sudo: Option<&str>) -> ActionExecutor {
    ActionExecutor::new(
        wtype,
        map(&[("WAYLAND_DISPLAY", "wayland-1")]),
        sudo.map(|s| s.to_string()),
        map(&[("HOME", "/root"), ("DISPLAY", ":0")]),
    )
}

fn runs(plan: ActionPlan) -> Vec<Invocation> {
    match plan {
        ActionPlan::Run(v) => v,
        _ => panic!("expected programs to run"),
    }
}

fn args(i: &Invocation) -> Vec<&str> {
    i.args.iter().map(|s| s.as_str()).collect()
}

#[test]
fn passthrough_empty_and_unknown() {
    let e = executor(true, None);
    assert!(matches!(e.execute("passthrough"), ActionPlan::Ignore));
    assert!(matches!(e.execute(""), ActionPlan::Ignore));
    assert!(matches!(e.execute("launch:kitty"), ActionPlan::Unknown));
    assert!(matches!(e.execute("Command:ls"), ActionPlan::Unknown));
}

#[test]
fn command_runs_through_sh_with_session_env() {
    let e = executor(false, None);
    let v = runs(e.execute("command:hyprctl dispatch cyclenext"));
    assert_eq!(v.len(), 1);
    assert_eq!(v[0].program, "sh");
    assert_eq!(args(&v[0]), vec!["-c", "hyprctl dispatch cyclenext"]);
    assert_eq!(v[0].env.get("DISPLAY"), Some(":0"));
    assert_eq!(v[0].env.get("HOME"), Some("/root"));
    assert_eq!(v[0].env.get("WAYLAND_DISPLAY"), Some("wayland-1"));
    assert_eq!(v[0].env.get("XDG_CURRENT_DESKTOP"), Some("Hyprland"));
    assert_eq!(v[0].env.len(), 4);
}

#[test]
fn command_env_defaults_display() {
    let e = ActionExecutor::new(true, StrMap::new(), None, StrMap::new());
    let v = runs(e.execute("command:true"));
    assert_eq!(v[0].env.get("DISPLAY"), Some(":1"));
    assert_eq!(v[0].env.get("XDG_CURRENT_DESKTOP"), Some("Hyprland"));
}

#[test]
fn key_strips_key_prefix() {
    let e = executor(true, None);
    let v = runs(e.execute("key:KEY_1"));
    assert_eq!(v.len(), 1);
    assert_eq!(v[0].program, "wtype");
    assert_eq!(args(&v[0]), vec!["-k", "1"]);
    assert_eq!(v[0].env.get("WAYLAND_DISPLAY"), Some("wayland-1"));
    let v = runs(e.execute("key:Escape"));
    assert_eq!(args(&v[0]), vec!["-k", "Escape"]);
}

#[test]
fn wtype_runs_as_the_sudo_user() {
    let e = executor(true, Some("alice"));
    let v = runs(e.execute("key:KEY_A"));
    assert_eq!(v[0].program, "sudo");
    assert_eq!(args(&v[0]), vec!["-u", "alice", "-E", "wtype", "-k", "A"]);
}

#[test]
fn combo_holds_keys_then_releases_them() {
    let e = executor(true, None);
    let v = runs(e.execute("combo:KEY_LEFTMETA + KEY_TAB"));
    assert_eq!(v.len(), 1);
    assert_eq!(args(&v[0]), vec!["-P", "LEFTMETA", "-P", "TAB", "-p", "TAB", "-p", "LEFTMETA"]);
    let v = runs(e.execute("combo:ctrl+ alt +KEY_DELETE"));
    assert_eq!(args(&v[0]), vec!["-P", "ctrl", "-P", "alt", "-P", "DELETE", "-p", "DELETE", "-p", "alt", "-p", "ctrl"]);
}

#[test]
fn text_lines_and_enter() {
    let e = executor(true, None);
    let v = runs(e.execute("text:continue"));
    assert_eq!(v.len(), 1);
    assert_eq!(args(&v[0]), vec!["continue"]);
    let v = runs(e.execute("text:a\nb"));
    let all: Vec<Vec<&str>> = v.iter().map(args).collect();
    assert_eq!(all, vec![vec!["a"], vec!["-k", "Return"], vec!["b"]]);
    let v = runs(e.execute("text:go\\n"));
    let all: Vec<Vec<&str>> = v.iter().map(args).collect();
    assert_eq!(all, vec![vec!["go\\n"], vec!["-k", "Return"]]);
    let v = runs(e.execute("text:\n"));
    let all: Vec<Vec<&str>> = v.iter().map(args).collect();
    assert_eq!(all, vec![vec!["-k", "Return"]]);
}

#[test]
fn wtype_missing() {
    let e = executor(false, None);
    assert!(matches!(e.execute("text:hi"), ActionPlan::WtypeMissing));
    assert!(matches!(e.execute("key:KEY_A"), ActionPlan::WtypeMissing));
    assert!(matches!(e.execute("combo:A+B"), ActionPlan::WtypeMissing));
}

#[test]
fn mouse_buttons() {
    let e = executor(false, None);
    let v = runs(e.execute("mouse:Left"));
    assert_eq!(v[0].program, "ydotool");
    assert_eq!(args(&v[0]), vec!["click", "0xC0"]);
    let v = runs(e.execute("mouse:RIGHT"));
    assert_eq!(args(&v[0]), vec!["click", "0xC1"]);
    let v = runs(e.execute("mouse:middle"));
    assert_eq!(args(&v[0]), vec!["click", "0xC2"]);
    assert!(matches!(e.execute("mouse:back"), ActionPlan::UnknownMouseButton));
    let s = executor(false, Some("bob"));
    let v = runs(s.execute("mouse:left"));
    assert_eq!(v[0].program, "sudo");
    assert_eq!(args(&v[0]), vec!["-u", "bob", "-E", "ydotool", "click", "0xC0"]);
}

#[test]
fn repeat_and_stop_move_the_generation() {
    let mut e = executor(true, Some("alice"));
    assert_eq!(e.repeat_id(), 0);
    let p = e.repeat_key("KEY_W", 20).expect("wtype is available");
    assert_eq!(p.id, 1);
    assert_eq!(p.count, 20);
    assert_eq!(p.key, "W");
    assert_eq!(p.command.program, "wtype");
    assert_eq!(args(&p.command), vec!["-k", "W"]);
    e.stop_repeat();
    assert_eq!(e.repeat_id(), 2);
    let q = e.repeat_key("S", 1).unwrap();
    assert_eq!(q.id, 3);
    assert!(!ActionExecutor::repeat_continues(&p, e.repeat_id(), 0));
    assert!(ActionExecutor::repeat_continues(&q, e.repeat_id(), 0));
    assert!(!ActionExecutor::repeat_continues(&q, e.repeat_id(), 1));
    let mut off = executor(false, None);
    assert!(off.repeat_key("W", 3).is_none());
    assert_eq!(off.repeat_id(), 0);
}

fn dir(path: &str, hypr: &[&str], w1: bool, w0: bool) -> RuntimeDir {
    RuntimeDir {
        path: path.to_string(),
        hypr_instances: hypr.iter().map(|s| s.to_string()).collect(),
        has_wayland_1: w1,
        has_wayland_0: w0,
    }
}

#[test]
fn hypr_env_discovery() {
    let dirs = vec![
        dir("/run/user/0", &[], false, false),
        dir("/run/user/1000", &["plain", "abc_123_456"], true, false),
    ];
    let env = hypr_env_from_dirs(&dirs);
    assert_eq!(env.get("HYPRLAND_INSTANCE_SIGNATURE"), Some("abc_123_456"));
    assert_eq!(env.get("XDG_RUNTIME_DIR"), Some("/run/user/1000"));
    assert_eq!(env.get("WAYLAND_DISPLAY"), Some("wayland-1"));
    assert_eq!(env.len(), 3);
}

#[test]
fn hypr_env_wayland_0_wins_and_sets_runtime_dir() {
    let dirs = vec![dir("/run/user/1000", &[], true, false), dir("/run/user/1001", &[], false, true)];
    let env = hypr_env_from_dirs(&dirs);
    assert_eq!(env.get("WAYLAND_DISPLAY"), Some("wayland-0"));
    assert_eq!(env.get("XDG_RUNTIME_DIR"), Some("/run/user/1000"));
    assert_eq!(env.get("HYPRLAND_INSTANCE_SIGNATURE"), None);
    assert_eq!(hypr_env_from_dirs(&vec![]).len(), 0);
}
