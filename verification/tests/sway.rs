use oatbar::ewmh::{property_refresh, DesktopAtoms};
use oatbar::desktop::{find_focused_node, sway_desktop_state, sway_workspace_command, SwayNode, SwayWorkspace};

fn leaf(name: Option<&str>, focused: bool) -> SwayNode {
    SwayNode { focused, name: name.map(|n| n.to_string()), nodes: vec![], floating_nodes: vec![] }
}

fn branch(nodes: Vec<SwayNode>, floating_nodes: Vec<SwayNode>) -> SwayNode {
    SwayNode { focused: false, name: Some("ws".into()), nodes, floating_nodes }
}

fn ws(id: i64, name: &str, focused: bool) -> SwayWorkspace {
    SwayWorkspace { id, name: name.into(), focused }
}

#[test]
fn the_focused_node_is_found_in_tiled_then_floating_nodes() {
    let tree = branch(
        vec![leaf(Some("term"), false), branch(vec![leaf(Some("editor"), true)], vec![])],
        vec![leaf(Some("float"), true)],
    );
    assert_eq!(find_focused_node(&tree), Some("editor".to_string()));
    let floating = branch(vec![leaf(Some("term"), false)], vec![leaf(Some("float"), true)]);
    assert_eq!(find_focused_node(&floating), Some("float".to_string()));
    let unnamed_first = branch(vec![leaf(None, true), leaf(Some("next"), true)], vec![]);
    assert_eq!(find_focused_node(&unnamed_first), Some("next".to_string()));
    assert_eq!(find_focused_node(&branch(vec![leaf(Some("a"), false)], vec![])), None);
    let root = SwayNode { focused: true, name: Some("root".into()), nodes: vec![leaf(Some("x"), true)], floating_nodes: vec![] };
    assert_eq!(find_focused_node(&root), Some("root".to_string()));
}

#[test]
fn sway_state_takes_the_focused_workspace() {
    let tree = branch(vec![leaf(Some("editor"), true)], vec![]);
    let workspaces = vec![ws(1, "1", false), ws(4, "web", true), ws(7, "3", false)];
    let st = sway_desktop_state(&workspaces, &tree, 0);
    assert_eq!(st.workspaces.names, vec!["1", "web", "3"]);
    assert_eq!(st.workspaces.current, 1);
    assert_eq!(st.active_window_title, "editor");
    let none_focused = vec![ws(1, "1", false)];
    let st = sway_desktop_state(&none_focused, &branch(vec![], vec![]), 5);
    assert_eq!(st.workspaces.current, 5);
    assert_eq!(st.active_window_title, "");
}

#[test]
fn workspaces_are_switched_by_their_number() {
    assert_eq!(sway_workspace_command(0), "workspace number 1");
    assert_eq!(sway_workspace_command(9), "workspace number 10");
}

#[test]
fn property_changes_refresh_what_they_concern() {
    let atoms = DesktopAtoms { current_desktop: 1, desktop_names: 2, active_window: 3, window_name: 4 };
    assert_eq!(property_refresh(1, &atoms), (true, false));
    assert_eq!(property_refresh(2, &atoms), (true, false));
    assert_eq!(property_refresh(3, &atoms), (false, true));
    assert_eq!(property_refresh(4, &atoms), (false, true));
    assert_eq!(property_refresh(9, &atoms), (false, false));
}
