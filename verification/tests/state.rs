use oatbar::config::{Config, Input, Replace, Var};
use oatbar::parse::Placeholder;
use oatbar::pattern::RegexPattern;
use oatbar::state::{format_error_str, MotionUpdate, State, Update, UpdateEntry, VarUpdate};
use oatbar::ipc::{apply_snapshot, handle_command, Command, ResponseData, ServerAction, VarStore};
use oatbar::vars::NameMap;

fn config_with_var(name: &str, expr: &str, replace: Vec<(&str, &str)>) -> Config<Placeholder> {
    let mut vars = NameMap::new();
    let input = Input {
        value: Placeholder::new(expr).unwrap(),
        replace_first_match: false,
        replace: Replace(
            replace
                .into_iter()
                .map(|(re, to)| (RegexPattern::new(re).unwrap(), Placeholder::new(to).unwrap()))
                .collect(),
        ),
    };
    vars.insert(name.to_string(), Var { name: name.to_string(), input });
    Config {
        bar: vec![],
        blocks: NameMap::new(),
        vars,
        var_order: vec![name.to_string()],
        blocks_vec: vec![],
        vars_vec: vec![],
        commands: vec![],
        default_block_vec: vec![],
    }
}

fn entry(name: Option<&str>, var: &str, value: &str) -> UpdateEntry {
    UpdateEntry { name: name.map(|s| s.to_string()), instance: None, var: var.into(), value: value.into() }
}

#[test]
fn entries_are_named_by_command_block_and_var() {
    let mut state = State::new(config_with_var("title", "${desktop:window_title.value}", vec![]));
    let snapshot = state.handle_var_update(VarUpdate {
        command_name: Some("desktop".into()),
        entries: vec![entry(Some("workspace"), "active", "0"), entry(Some("window_title"), "value", "Alacritty")],
        error: None,
    });
    assert_eq!(state.vars.get("desktop:workspace.active").unwrap(), "0");
    assert_eq!(state.vars.get("desktop:window_title.value").unwrap(), "Alacritty");
    assert_eq!(state.vars.get("title").unwrap(), "Alacritty");
    let snapshot = snapshot.unwrap();
    assert_eq!(snapshot.vars.get("title").unwrap(), "Alacritty");
    assert_eq!(snapshot.vars.get("desktop:workspace.active").unwrap(), "0");
}

#[test]
fn same_update_twice_changes_nothing() {
    let mut state = State::new(config_with_var("v", "[${clock:value}]", vec![]));
    let make = || VarUpdate { command_name: Some("clock".into()), entries: vec![entry(None, "value", "12:00")], error: None };
    assert!(state.handle_var_update(make()).is_some());
    assert!(state.handle_var_update(make()).is_none());
    assert_eq!(state.vars.get("v").unwrap(), "[12:00]");
}

#[test]
fn configured_variable_goes_through_replacements() {
    let mut state = State::new(config_with_var("color", "${clock:color}", vec![("(.+)", "foreground='$1'")]));
    state.handle_var_update(VarUpdate {
        command_name: Some("clock".into()),
        entries: vec![entry(None, "color", "red")],
        error: None,
    });
    assert_eq!(state.vars.get("color").unwrap(), "foreground='red'");
}

#[test]
fn command_errors_are_recorded_and_cleared() {
    let mut state = State::new(config_with_var("v", "x", vec![]));
    state.handle_var_update(VarUpdate { command_name: Some("b".into()), entries: vec![], error: Some("late\nfailure".into()) });
    state.handle_var_update(VarUpdate { command_name: Some("a".into()), entries: vec![], error: Some("boom".into()) });
    assert_eq!(state.build_error_msg().unwrap(), "a: State error: boom");
    state.handle_var_update(VarUpdate { command_name: Some("a".into()), entries: vec![], error: None });
    assert_eq!(state.build_error_msg().unwrap(), "b: State error: late failure");
    state.handle_var_update(VarUpdate { command_name: Some("b".into()), entries: vec![], error: None });
    assert!(state.build_error_msg().is_none());
}

#[test]
fn state_error_comes_first() {
    let mut state = State::new(config_with_var("v", "x", vec![]));
    state.handle_var_update(VarUpdate { command_name: Some("a".into()), entries: vec![], error: Some("boom".into()) });
    state.error = Some("config".into());
    assert_eq!(state.build_error_msg().unwrap(), "config");
}

#[test]
fn motion_updates_track_the_pointer() {
    let mut state = State::new(config_with_var("v", "x", vec![]));
    let r = state.handle_state_update(Update::MotionUpdate(MotionUpdate { window_name: "w".into(), position: Some((3, 4)) }));
    assert!(r.is_none());
    assert_eq!(*state.pointer_position.get("w").unwrap(), (3, 4));
    state.handle_motion_update(MotionUpdate { window_name: "w".into(), position: None });
    assert!(state.pointer_position.get("w").is_none());
}

#[test]
fn error_string_is_flattened() {
    assert_eq!(format_error_str(""), "");
    assert_eq!(format_error_str("a\nb"), "a b");
    assert_eq!(format_error_str("  \n\t\n"), "");
}

fn get(store: &VarStore, name: &str) -> String {
    match handle_command(store, Command::GetVar { name: name.into() }).0.data {
        Some(ResponseData::Value(v)) => v,
        _ => panic!("no value"),
    }
}

#[test]
fn a_variable_set_through_the_socket_reads_back() {
    let mut state = State::new(config_with_var("v", "[${clock:value}]", vec![]));
    let mut store = VarStore::new();
    let (_, action) = handle_command(&store, Command::SetVar { name: "clock:value".into(), value: "12:00".into() });
    let update = match action {
        Some(ServerAction::Send(u)) => u,
        _ => panic!("no update"),
    };
    if let Some(snapshot) = state.handle_state_update(update) {
        apply_snapshot(&mut store, &snapshot);
    }
    assert_eq!(get(&store, "clock:value"), "12:00");
    assert_eq!(get(&store, "v"), "[12:00]");
    assert_eq!(get(&store, "unset"), "");
    assert_eq!(state.vars.get("clock:value").unwrap(), "12:00");
}
