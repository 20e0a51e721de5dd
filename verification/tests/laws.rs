use oatbar::bar::{RedrawScope};
use oatbar::cli::{rotate_index, Direction};
use oatbar::ipc::{set_var_update};
use oatbar::parse::{Placeholder, PlaceholderExt};
use oatbar::popup::{PopupManager, POPUP_REOPEN_DELAY_MS};
use oatbar::state::{format_error_str, State, Update};
use oatbar::text::{join, split_on};
use oatbar::vars::{NameSet, VarMap};
use oatbar::config::{Config, Bar, BarPosition, Margin};
use oatbar::vars::NameMap;

fn empty_config() -> Config<Placeholder> {
    Config {
        bar: vec![],
        blocks: NameMap::new(),
        vars: NameMap::new(),
        var_order: vec![],
        blocks_vec: vec![],
        vars_vec: vec![],
        commands: vec![],
        default_block_vec: vec![],
    }
}

#[test]
fn plain_text_resolves_to_itself() {
    let map = VarMap::new();
    let p = Placeholder::new("no variables here: 100% {x}").unwrap();
    assert_eq!(p.resolve(&map).unwrap(), "no variables here: 100% {x}");
}

#[test]
fn align_gives_width_or_input() {
    let mut map = VarMap::new();
    map.insert("a".into(), "hello".into());
    let wide = Placeholder::new("${a|align:_>10}").unwrap().resolve(&map).unwrap();
    assert_eq!(wide, "_____hello");
    assert_eq!(wide.chars().count(), 10);
    let narrow = Placeholder::new("${a|align:_^3}").unwrap().resolve(&map).unwrap();
    assert_eq!(narrow, "hello");
}

#[test]
fn max_cuts_to_the_limit() {
    let mut map = VarMap::new();
    map.insert("a".into(), "abcdefghijklmnop".into());
    let r = Placeholder::new("${a|max:8}").unwrap().resolve(&map).unwrap();
    assert_eq!(r, "abcde...");
    assert_eq!(r.chars().count(), 8);
    let short = Placeholder::new("${a|max:100}").unwrap().resolve(&map).unwrap();
    assert_eq!(short, "abcdefghijklmnop");
}

#[test]
fn second_update_reports_no_change() {
    let mut map = VarMap::new();
    map.insert("x".into(), "1".into());
    let mut p = Placeholder::new("x=${x}").unwrap();
    assert_eq!(p.update(&map).unwrap(), true);
    assert_eq!(p.update(&map).unwrap(), false);
    assert_eq!(p.value, "x=1");
}

#[test]
fn join_of_split_gives_text_back() {
    for s in ["", "a", "a,b", ",a,,b,", ",,"] {
        let parts = split_on(s, ',');
        assert_eq!(join(&parts, ","), s);
    }
}

#[test]
fn formatted_error_is_one_line() {
    let r = format_error_str("first\n\n   \nsecond line\n third\n");
    assert_eq!(r, "first second line  third");
    assert!(!r.contains('\n'));
}

#[test]
fn set_var_round_trip_names_the_variable() {
    let mut state = State::new(empty_config());
    match set_var_update("desktop:workspace.value", "3".into()) {
        Update::VarUpdate(u) => {
            state.handle_var_update(u);
        }
        _ => panic!("expected a variable update"),
    }
    assert_eq!(state.vars.get("desktop:workspace.value").unwrap(), "3");
    match set_var_update("plain", "x".into()) {
        Update::VarUpdate(u) => {
            state.handle_var_update(u);
        }
        _ => panic!("expected a variable update"),
    }
    assert_eq!(state.vars.get("plain").unwrap(), "x");
}

#[test]
fn redraw_scopes_combine_in_any_order() {
    let mut a = NameSet::new();
    a.insert("x".into());
    let mut b = NameSet::new();
    b.insert("y".into());
    let ab = RedrawScope::Partial(a.clone()).combine(RedrawScope::Partial(b.clone()));
    let ba = RedrawScope::Partial(b).combine(RedrawScope::Partial(a));
    for r in [ab, ba] {
        match r {
            RedrawScope::Partial(s) => {
                assert!(s.contains("x") && s.contains("y"));
            }
            _ => panic!("expected a partial scope"),
        }
    }
    assert!(matches!(RedrawScope::All.combine(RedrawScope::Nothing), RedrawScope::All));
    assert!(matches!(RedrawScope::Nothing.combine(RedrawScope::Nothing), RedrawScope::Nothing));
}

#[test]
fn rotating_right_then_left_returns() {
    for len in 1..5usize {
        for p in 0..len {
            let r = rotate_index(Direction::Right, Some(p), len);
            assert_eq!(rotate_index(Direction::Left, Some(r), len), p);
        }
    }
}

#[test]
fn hidden_popup_is_not_shown_at_once() {
    let mut m = PopupManager::new();
    let _ = m.generate_update_to_hide("cpu", 1000);
    assert!(m.generate_update_to_show("cpu", 1000 + POPUP_REOPEN_DELAY_MS - 1).is_none());
    assert!(m.generate_update_to_show("cpu", 1000 + POPUP_REOPEN_DELAY_MS).is_some());
}

#[test]
fn bar_defaults() {
    assert_eq!(oatbar::config::default_height(), 32);
    assert_eq!(oatbar::config::default_bar_position(), BarPosition::Bottom);
    assert_eq!(oatbar::config::default_margin(), Margin { left: 0, right: 0, top: 0, bottom: 0 });
    assert!(!oatbar::config::default_popup_at_edge());
    let b: Bar<Option<Placeholder>> = Bar {
        blocks_left: vec!["a".into()],
        blocks_center: vec![],
        blocks_right: vec![],
        monitor: None,
        height: 20,
        position: BarPosition::Top,
        margin: Margin::from_int(70000),
        background: None,
        popup: false,
        popup_at_edge: false,
        show_if_matches: vec![],
        popup_show_if_some: vec![],
    };
    let d = b.with_default();
    assert_eq!(d.margin.left, 70000u32 as u16);
    assert_eq!(d.background.resolve(&VarMap::new()).unwrap(), "#00000000");
}

#[test]
fn one_insert_gives_one_entry() {
    let mut vars = VarMap::new();
    vars.insert("a".into(), "1".into());
    assert_eq!(vars.len(), 1);
    vars.insert("a".into(), "2".into());
    assert_eq!(vars.len(), 1);
    let mut names: NameMap<u8> = NameMap::new();
    names.insert("x".into(), 1);
    assert_eq!(names.len(), 1);
}
