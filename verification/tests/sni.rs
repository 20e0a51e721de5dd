use oatbar::protocol::I3Value;
use oatbar::sni::{
    activation, dedup_separators, dump_sni_menu, item_address, menu_items, parse_selection, pick_menu_item, split_dbus_address,
    Activation, ClickError, DBusMenuNode, MenuLayout, MenuProps, MouseButton, Pixmap, StatusNotifierItemProperties,
    Tooltip,
};

fn tooltip(title: &str, description: &str) -> Tooltip {
    Tooltip { icon_name: String::new(), icon_pixmaps: vec![], title: title.into(), description: description.into() }
}

fn props() -> StatusNotifierItemProperties {
    StatusNotifierItemProperties {
        dbus_destination: ":1.42".into(),
        dbus_path: "/StatusNotifierItem".into(),
        visible: true,
        category: None,
        id: None,
        title: None,
        status: None,
        window_id: None,
        icon_name: None,
        icon_pixmap: None,
        tool_tip: None,
        item_is_menu: None,
        menu: None,
        icon_theme_path: None,
    }
}

fn field<'a>(other: &'a [(String, I3Value)], key: &str) -> Option<&'a I3Value> {
    other.iter().find(|(k, _)| k == key).map(|(_, v)| v)
}

fn text_field(other: &[(String, I3Value)], key: &str) -> Option<String> {
    match field(other, key) {
        Some(I3Value::Str(s)) => Some(s.clone()),
        Some(I3Value::Json(s)) => Some(s.clone()),
        _ => None,
    }
}

fn entry(label: Option<&str>) -> MenuProps {
    MenuProps {
        visible: None,
        enabled: None,
        item_type: None,
        label: label.map(|l| l.to_string()),
        toggle_type: None,
        toggle_state: None,
        children_display: None,
    }
}

fn node(id: i32, props: MenuProps, children: Vec<MenuLayout>) -> MenuLayout {
    MenuLayout { id, props, children }
}

fn separator() -> MenuProps {
    let mut p = entry(None);
    p.item_type = Some("separator".into());
    p
}

fn sample_menu() -> MenuLayout {
    let mut mute = entry(Some("_Mute"));
    mute.toggle_type = Some("checkmark".into());
    mute.toggle_state = Some(1);
    let mut radio = entry(Some("A"));
    radio.toggle_type = Some("radio".into());
    radio.toggle_state = Some(0);
    let mut hidden = entry(Some("Hidden"));
    hidden.visible = Some(Some(false));
    let mut disabled = entry(Some("Off"));
    disabled.enabled = Some(Some(false));
    let mut more = entry(Some("More"));
    more.children_display = Some("submenu".into());
    node(
        0,
        entry(None),
        vec![
            node(1, entry(Some("Open")), vec![]),
            node(2, separator(), vec![]),
            node(3, separator(), vec![]),
            node(4, mute, vec![]),
            node(5, radio, vec![]),
            node(6, hidden, vec![node(61, entry(Some("Inside")), vec![])]),
            node(7, more, vec![node(8, entry(Some("Deep")), vec![])]),
            node(9, entry(Some("  ")), vec![]),
            node(10, disabled, vec![]),
        ],
    )
}

#[test]
fn tooltip_text_joins_title_and_description() {
    assert_eq!(tooltip("Volume", "50%").display_text(), Some("Volume: 50%".to_string()));
    assert_eq!(tooltip("Volume", "").display_text(), Some("Volume".to_string()));
    assert_eq!(tooltip("", "50%").display_text(), Some("50%".to_string()));
    assert_eq!(tooltip("", "").display_text(), None);
}

#[test]
fn item_block_takes_the_largest_icon_and_the_tooltip() {
    let mut p = props();
    p.id = Some("nm-applet".into());
    p.title = Some("Network".into());
    p.window_id = Some(-5);
    p.icon_pixmap = Some(vec![
        Pixmap { width: 2, height: 2, data: vec![1, 2] },
        Pixmap { width: 3, height: 1, data: vec![3] },
        Pixmap { width: 1, height: 4, data: vec![255, 0, 7] },
    ]);
    p.tool_tip = Some(tooltip("Wi-Fi", "connected"));
    let b = p.to_block();
    assert_eq!(b.name.as_deref(), Some("sni"));
    assert_eq!(b.instance.as_deref(), Some("nm-applet"));
    assert_eq!(b.full_text, "Wi-Fi: connected");
    assert_eq!(text_field(&b.other, "visible").as_deref(), Some("1"));
    assert_eq!(text_field(&b.other, "dbus").as_deref(), Some(":1.42:/StatusNotifierItem"));
    assert_eq!(text_field(&b.other, "title").as_deref(), Some("Network"));
    assert!(field(&b.other, "category").is_none());
    assert_eq!(text_field(&b.other, "window_id").as_deref(), Some("-5"));
    assert_eq!(text_field(&b.other, "pixmap_width").as_deref(), Some("1"));
    assert_eq!(text_field(&b.other, "pixmap_height").as_deref(), Some("4"));
    assert_eq!(text_field(&b.other, "pixmap").as_deref(), Some("[1,4,255,0,7]"));
    assert_eq!(text_field(&b.other, "tooltip").as_deref(), Some("Wi-Fi: connected"));
}

#[test]
fn item_block_text_falls_back_to_title_then_id() {
    let mut p = props();
    p.visible = false;
    p.id = Some("app".into());
    p.title = Some("App".into());
    p.tool_tip = Some(tooltip("", ""));
    let b = p.to_block();
    assert_eq!(b.full_text, "App");
    assert_eq!(text_field(&b.other, "visible").as_deref(), Some(""));
    assert!(field(&b.other, "tooltip").is_none());
    p.title = None;
    assert_eq!(p.to_block().full_text, "app");
    p.id = None;
    let b = p.to_block();
    assert_eq!(b.full_text, "");
    assert!(b.instance.is_none());
    p.icon_pixmap = Some(vec![]);
    assert!(field(&p.to_block().other, "pixmap").is_none());
}

#[test]
fn a_gone_item_is_hidden_without_icons() {
    let mut p = props();
    p.icon_pixmap = Some(vec![Pixmap { width: 1, height: 1, data: vec![0] }]);
    let mut t = tooltip("T", "");
    t.icon_pixmaps = vec![Pixmap { width: 1, height: 1, data: vec![0] }];
    p.tool_tip = Some(t);
    p.mark_gone();
    assert!(!p.visible);
    assert!(p.icon_pixmap.is_none());
    let t = p.tool_tip.unwrap();
    assert!(t.icon_pixmaps.is_empty());
    assert_eq!(t.title, "T");
}

#[test]
fn item_addresses_come_from_the_service_or_the_sender() {
    assert_eq!(
        item_address("/org/ayatana/NotificationItem/x", Some(":1.42")),
        (":1.42".to_string(), "/org/ayatana/NotificationItem/x".to_string())
    );
    assert_eq!(
        item_address("/org/ayatana/NotificationItem/x", None),
        ("/org/ayatana/NotificationItem/x".to_string(), "/StatusNotifierItem".to_string())
    );
    assert_eq!(
        item_address("org.kde.StatusNotifierItem-1-1", Some(":1.7")),
        ("org.kde.StatusNotifierItem-1-1".to_string(), "/StatusNotifierItem".to_string())
    );
}

#[test]
fn dbus_addresses_split_at_the_last_colon() {
    assert_eq!(
        split_dbus_address(":1.42:/StatusNotifierItem"),
        (":1.42".to_string(), "/StatusNotifierItem".to_string())
    );
    assert_eq!(split_dbus_address(":1.42"), ("".to_string(), "1.42".to_string()));
    assert_eq!(split_dbus_address("org.x"), ("org.x".to_string(), "/StatusNotifierItem".to_string()));
}

#[test]
fn clicks_choose_the_action() {
    assert_eq!(activation(false, MouseButton::Left), Activation::Activate);
    assert_eq!(activation(false, MouseButton::Right), Activation::ContextMenu);
    assert_eq!(activation(false, MouseButton::Middle), Activation::SecondaryActivate);
    assert_eq!(activation(true, MouseButton::Left), Activation::ContextMenu);
    assert_eq!(activation(true, MouseButton::Right), Activation::ContextMenu);
    assert_eq!(activation(true, MouseButton::Middle), Activation::SecondaryActivate);
}

#[test]
fn the_chosen_entry_is_the_first_word() {
    assert_eq!(parse_selection("12    Open\n"), Some(12));
    assert_eq!(parse_selection("  -3 x"), Some(-3));
    assert_eq!(parse_selection("+7"), Some(7));
    assert_eq!(parse_selection("abc 1"), None);
    assert_eq!(parse_selection(""), None);
    assert_eq!(parse_selection(" \n"), None);
    assert_eq!(parse_selection("2147483647"), Some(2147483647));
    assert_eq!(parse_selection("2147483648"), None);
    assert_eq!(parse_selection("-2147483648"), Some(-2147483648));
    assert_eq!(parse_selection("-"), None);
}

#[test]
fn menu_labels_lose_their_mnemonics() {
    let n = DBusMenuNode::new(&entry(Some("_File")));
    assert_eq!(n.label, "File");
    assert!(n.visible && n.enabled);
    assert_eq!(n.item_type, "standard");
    assert_eq!(n.toggle_state, -1);
    assert_eq!(DBusMenuNode::new(&entry(Some("Save__As"))).label, "Save_As");
    assert_eq!(DBusMenuNode::new(&entry(Some("a___b"))).label, "a_b");
    assert_eq!(DBusMenuNode::new(&entry(Some("a\0b"))).label, "a_b");
    let mut odd = entry(None);
    odd.visible = Some(None);
    odd.enabled = Some(None);
    let n = DBusMenuNode::new(&odd);
    assert!(!n.visible);
    assert!(n.enabled);
    assert_eq!(n.label, "");
}

#[test]
fn menu_lines_show_the_shown_entries() {
    let lines = dump_sni_menu(&sample_menu());
    assert_eq!(
        lines,
        vec![
            "1     Open".to_string(),
            "2     ---".to_string(),
            "4     [X] Mute".to_string(),
            "5     ( ) A".to_string(),
            "7     More:".to_string(),
            "8       Deep".to_string(),
        ]
    );
}

#[test]
fn menu_items_include_those_under_hidden_entries() {
    let items = menu_items(&sample_menu());
    let ids: Vec<i32> = items.iter().map(|(i, _)| *i).collect();
    assert_eq!(ids, vec![1, 4, 5, 61, 7, 8]);
    assert_eq!(items[1].1, "Mute");
}

#[test]
fn menu_item_click_picks_the_only_match() {
    let items = menu_items(&sample_menu());
    assert_eq!(pick_menu_item(Some(42), &None, &items), Ok(42));
    assert_eq!(pick_menu_item(None, &Some("^Mu".into()), &items), Ok(4));
    assert_eq!(pick_menu_item(None, &Some("e".into()), &items), Err(ClickError::Multiple(5)));
    assert_eq!(pick_menu_item(None, &Some("zzz".into()), &items), Err(ClickError::NoMatch));
    assert_eq!(pick_menu_item(None, &Some("(".into()), &items), Err(ClickError::InvalidRegex));
    assert_eq!(pick_menu_item(None, &None, &items), Err(ClickError::MissingTarget));
}

#[test]
fn runs_of_separators_keep_their_first() {
    let lines: Vec<String> = ["1   ---", "2   ---", "3   a", "4   ---", "5   b---", "6   ---", "7   c"]
        .iter()
        .map(|s| s.to_string())
        .collect();
    assert_eq!(dedup_separators(lines), vec!["1   ---", "3   a", "4   ---", "7   c"]);
    assert!(dedup_separators(vec![]).is_empty());
}

#[test]
fn the_dbus_field_names_the_item_again() {
    let mut p = props();
    p.dbus_destination = ":1.99".into();
    p.dbus_path = "/org/ayatana/NotificationItem/app".into();
    let b = p.to_block();
    let field = text_field(&b.other, "dbus").unwrap();
    assert_eq!(split_dbus_address(&field), (":1.99".to_string(), "/org/ayatana/NotificationItem/app".to_string()));
}
