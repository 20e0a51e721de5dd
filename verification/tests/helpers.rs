use oatbar::desktop::{
    desktop_blocks, workspace_names, DesktopState, ManagerEvent, ToplevelEvent, WaylandState, Workspaces,
};
use oatbar::keyboard::{hyprland_state, state_to_blocks, to_indicator_name, KeyboardState};
use oatbar::protocol::I3Value;
use oatbar::state::Update;

fn text(v: &I3Value) -> String {
    match v {
        I3Value::Str(s) | I3Value::Json(s) => s.clone(),
        I3Value::Bool(b) => b.to_string(),
    }
}

#[test]
fn indicator_names_are_snake_case() {
    assert_eq!(to_indicator_name("Caps Lock"), "caps_lock");
    assert_eq!(to_indicator_name("NumLock"), "num_lock");
    assert_eq!(to_indicator_name(" Scroll"), "_scroll");
    assert_eq!(to_indicator_name("ÉTAT"), "É_t_a_t");
    assert_eq!(to_indicator_name(""), "");
}

#[test]
fn keyboard_blocks() {
    let blocks = state_to_blocks(KeyboardState {
        current: 1,
        variants: vec!["us".into(), "de".into()],
        indicators: vec![("caps_lock".into(), true), ("num_lock".into(), false)],
    });
    assert_eq!(blocks.len(), 3);
    assert_eq!(blocks[0].full_text, "layout: de");
    let other: Vec<(String, String)> = blocks[0].other.iter().map(|(k, v)| (k.clone(), text(v))).collect();
    assert_eq!(
        other,
        vec![("active".into(), "1".into()), ("value".into(), "de".into()), ("variants".into(), "us,de".into())]
    );
    assert_eq!(blocks[1].full_text, "caps_lock: on");
    assert_eq!(blocks[1].instance.as_deref(), Some("caps_lock"));
    assert_eq!(blocks[2].full_text, "num_lock:off");
    let out_of_range = state_to_blocks(KeyboardState { current: 5, variants: vec![], indicators: vec![] });
    assert_eq!(out_of_range[0].full_text, "layout: ?");
}

#[test]
fn hyprland_layouts() {
    let s = hyprland_state("us,de,fr", 2);
    assert_eq!(s.variants, vec!["us", "de", "fr"]);
    assert_eq!(s.current, 2);
    assert!(s.indicators.is_empty());
}

#[test]
fn workspace_update() {
    let u = Workspaces { current: 1, names: vec!["1".into(), "web".into()] }.to_state_update();
    match u {
        Update::VarUpdate(u) => {
            let got: Vec<(String, String)> = u.entries.iter().map(|e| (e.var.clone(), e.value.clone())).collect();
            assert_eq!(
                got,
                vec![("active".into(), "1".into()), ("value".into(), "web".into()), ("variants".into(), "1,web".into())]
            );
            assert!(u.entries.iter().all(|e| e.name.as_deref() == Some("workspace")));
        }
        _ => panic!("expected a variable update"),
    }
}

#[test]
fn workspace_names_from_bytes() {
    assert_eq!(workspace_names(b"one\0two\0\0three\0"), vec!["one", "two", "three"]);
    assert_eq!(workspace_names(b"\xffx\0"), vec!["\u{FFFD}x"]);
    assert!(workspace_names(b"").is_empty());
}

#[test]
fn desktop_blocks_show_workspace_and_title() {
    let blocks = desktop_blocks(&DesktopState {
        workspaces: Workspaces { current: 0, names: vec!["main".into()] },
        active_window_title: "Terminal".into(),
    });
    assert_eq!(blocks[0].full_text, "workspace: main");
    assert_eq!(blocks[1].full_text, "window: Terminal");
    assert_eq!(text(&blocks[1].other[0].1), "Terminal");
}

#[test]
fn wayland_windows() {
    let mut w = WaylandState::new();
    w.handle_manager_event(ManagerEvent::Toplevel { object_id: 40 });
    w.handle_manager_event(ManagerEvent::Toplevel { object_id: 41 });
    assert_eq!(w.next_id, 2);
    assert!(!w.handle_toplevel_event(40, ToplevelEvent::Title("editor".into())));
    assert!(!w.handle_toplevel_event(40, ToplevelEvent::State(vec![0, 2])));
    assert!(w.needs_print);
    assert!(w.handle_toplevel_event(40, ToplevelEvent::Done));
    assert!(!w.needs_print);
    assert!(!w.handle_toplevel_event(40, ToplevelEvent::Done));
    assert_eq!(w.get_active_title(), "editor");
    assert_eq!(w.desktop_state().workspaces.names, vec!["default"]);
    assert!(!w.handle_toplevel_event(99, ToplevelEvent::Closed));
    assert!(w.handle_toplevel_event(40, ToplevelEvent::Closed));
    assert_eq!(w.get_active_title(), "");
}

#[test]
fn indicators_stay_in_name_order() {
    let mut state = KeyboardState { current: 0, variants: vec!["us".into()], indicators: vec![] };
    state.set_indicator("num_lock".into(), true);
    state.set_indicator("caps_lock".into(), false);
    state.set_indicator("scroll_lock".into(), true);
    state.set_indicator("num_lock".into(), false);
    assert_eq!(
        state.indicators,
        vec![("caps_lock".to_string(), false), ("num_lock".to_string(), false), ("scroll_lock".to_string(), true)]
    );
    assert_eq!(state.variants, vec!["us".to_string()]);
}
