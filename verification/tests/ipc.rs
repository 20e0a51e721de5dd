use oatbar::ipc::{
    apply_snapshot, handle_command, socket_path, split_var_name, Client, Command, ResponseData, ServerAction, VarStore,
};
use oatbar::state::{Update, VarSnapshotUpdate};
use oatbar::vars::VarMap;

#[test]
fn socket_paths() {
    assert_eq!(socket_path("/run/user/1000", "oatbar"), "/run/user/1000/oatbar/oatbar.sock");
    assert_eq!(socket_path("/tmp/", "x"), "/tmp/oatbar/x.sock");
    assert_eq!(Client::new("/run", "bar").socket_path, "/run/oatbar/bar.sock");
    assert_eq!(oatbar::pidfile::Pidfile::new("/run").path, "/run/oatbar/oatbar.pid");
}

#[test]
fn variable_names_split_at_the_first_colon() {
    assert_eq!(split_var_name("cmd:a:b"), (Some("cmd".to_string()), "a:b".to_string()));
    assert_eq!(split_var_name("plain"), (None, "plain".to_string()));
    assert_eq!(split_var_name(":x"), (Some("".to_string()), "x".to_string()));
}

#[test]
fn var_store_lists_in_name_order() {
    let mut vars = VarStore::new();
    vars.insert("b".into(), "2".into());
    vars.insert("a".into(), "1".into());
    vars.insert("c".into(), "3".into());
    vars.insert("b".into(), "two".into());
    let list = vars.list();
    let names: Vec<&str> = list.iter().map(|(k, _)| k.as_str()).collect();
    assert_eq!(names, vec!["a", "b", "c"]);
    assert_eq!(vars.get("b").unwrap(), "two");
    assert!(vars.get("zz").is_none());
}

#[test]
fn commands_are_answered() {
    let mut vars = VarStore::new();
    vars.insert("x".into(), "1".into());
    let (r, a) = handle_command(&vars, Command::GetVar { name: "x".into() });
    assert!(a.is_none());
    assert!(matches!(r.data, Some(ResponseData::Value(v)) if v == "1"));
    let (r, _) = handle_command(&vars, Command::GetVar { name: "missing".into() });
    assert!(matches!(r.data, Some(ResponseData::Value(v)) if v.is_empty()));
    let (r, _) = handle_command(&vars, Command::ListVars {});
    assert!(matches!(r.data, Some(ResponseData::Vars(l)) if l.len() == 1));
    let (r, a) = handle_command(&vars, Command::Poke { name: Some("c".into()) });
    assert!(r.data.is_none() && r.error.is_none());
    assert!(matches!(a, Some(ServerAction::Poke(Some(n))) if n == "c"));
    let (_, a) = handle_command(&vars, Command::SetVar { name: "cmd:v".into(), value: "9".into() });
    match a {
        Some(ServerAction::Send(Update::VarUpdate(u))) => {
            assert_eq!(u.command_name.as_deref(), Some("cmd"));
            assert_eq!(u.entries[0].var, "v");
            assert_eq!(u.entries[0].value, "9");
        }
        _ => panic!("expected an update to send"),
    }
}

#[test]
fn snapshots_update_the_store() {
    let mut vars = VarStore::new();
    vars.insert("a".into(), "old".into());
    let mut m = VarMap::new();
    m.insert("a".into(), "new".into());
    m.insert("b".into(), "b".into());
    apply_snapshot(&mut vars, &VarSnapshotUpdate { vars: m });
    assert_eq!(vars.get("a").unwrap(), "new");
    assert_eq!(vars.get("b").unwrap(), "b");
}
