use oatbar::bar::{
    active_index, block_event_command, block_visible, group_updates, update_bar, update_enum_block, update_text_block,
    visible_from_vars, BlockOutcome, BlockUpdates, Button, PopupSets, RedrawScope,
};
use oatbar::config::{
    default_active_display, default_display, Bar, BarPosition, Block, Config, DefaultBlock, DisplayOptions, EnumBlock,
    EventHandlers, Input, Margin, PopupMode, TextBlock, Var,
};
use oatbar::parse::{Placeholder, PlaceholderExt};
use oatbar::pattern::RegexPattern;
use oatbar::popup::{popup_var_name, process_config, PopupManager};
use oatbar::vars::{NameMap, NameSet, VarMap};

fn some(expr: &str) -> Option<Placeholder> {
    Some(Placeholder::new(expr).unwrap())
}

fn opt_display() -> DisplayOptions<Option<Placeholder>> {
    DisplayOptions {
        font: None,
        popup_value: None,
        output_format: None,
        pango_markup: None,
        margin: None,
        padding: None,
        decorations: oatbar::config::Decorations {
            foreground: None,
            background: None,
            overline_color: None,
            underline_color: None,
            edgeline_color: None,
            line_width: None,
        },
        hover_decorations: oatbar::config::Decorations {
            foreground: None,
            background: None,
            overline_color: None,
            underline_color: None,
            edgeline_color: None,
            line_width: None,
        },
        show_if_matches: vec![],
        popup_show_if_some: vec![],
        popup: None,
    }
}

fn opt_handlers() -> EventHandlers<Option<Placeholder>> {
    EventHandlers { on_mouse_left: None, on_mouse_middle: None, on_mouse_right: None, on_scroll_up: None, on_scroll_down: None }
}

fn text_block(name: &str, inherit: Option<&str>, display: DisplayOptions<Option<Placeholder>>) -> Block<Option<Placeholder>> {
    Block::Text(TextBlock {
        name: name.into(),
        inherit: inherit.map(|s| s.to_string()),
        display,
        input: Input { value: None, replace_first_match: false, replace: oatbar::config::Replace(vec![]) },
        separator_type: None,
        separator_radius: None,
        event_handlers: opt_handlers(),
    })
}

fn resolved(p: &Placeholder) -> String {
    p.resolve(&VarMap::new()).unwrap()
}

fn font_of(b: &Block<Placeholder>) -> String {
    match b {
        Block::Text(t) => resolved(&t.display.font),
        _ => panic!("expected a text block"),
    }
}

#[test]
fn defaults_come_from_the_inherited_block() {
    let mut red = opt_display();
    red.font = some("red font");
    let mut base = opt_display();
    base.font = some("base font");
    let config: Config<Option<Placeholder>> = Config {
        bar: vec![],
        blocks: NameMap::new(),
        vars: NameMap::new(),
        var_order: vec![],
        blocks_vec: vec![
            text_block("a", None, opt_display()),
            text_block("b", Some("red"), opt_display()),
            text_block("c", Some("missing"), opt_display()),
            text_block("d", None, { let mut d = opt_display(); d.font = some("own"); d }),
        ],
        vars_vec: vec![Var { name: "v".into(), input: Input { value: None, replace_first_match: false, replace: oatbar::config::Replace(vec![]) } }],
        commands: vec![],
        default_block_vec: vec![
            DefaultBlock { name: Some("red".into()), display: red, active_display: opt_display() },
            DefaultBlock { name: None, display: base, active_display: opt_display() },
        ],
    };
    let c = config.with_defaults();
    assert_eq!(font_of(c.blocks.get("a").unwrap()), "base font");
    assert_eq!(font_of(c.blocks.get("b").unwrap()), "red font");
    assert_eq!(font_of(c.blocks.get("c").unwrap()), "base font");
    assert_eq!(font_of(c.blocks.get("d").unwrap()), "own");
    assert_eq!(c.var_order, vec!["v"]);
    assert!(c.vars.get("v").is_some());
    assert!(c.blocks_vec.is_empty());
}

#[test]
fn built_in_defaults() {
    let d = default_display();
    assert_eq!(resolved(&d.font), "monospace 12");
    assert_eq!(resolved(&d.decorations.foreground), "#dddddd");
    assert_eq!(resolved(&d.decorations.background), "#191919");
    assert_eq!(d.padding, Some(8.0f64.to_bits()));
    assert_eq!(d.decorations.line_width, Some(1.1f64.to_bits()));
    let a = default_active_display();
    assert_eq!(resolved(&a.decorations.foreground), "#ffffff");
    let mut vars = VarMap::new();
    vars.insert("value".into(), "v".into());
    assert_eq!(d.output_format.resolve(&vars).unwrap(), "v");
}

fn popup_block(name: &str, mode: Option<PopupMode>) -> Block<Placeholder> {
    let mut display = DisplayOptions::default();
    display.popup = mode;
    Block::Text(TextBlock {
        name: name.into(),
        inherit: None,
        display,
        input: Input::default(),
        separator_type: None,
        separator_radius: None,
        event_handlers: EventHandlers::default(),
    })
}

#[test]
fn popups_reach_the_blocks_their_mode_names() {
    let mut blocks = NameMap::new();
    blocks.insert("cpu".to_string(), popup_block("cpu", Some(PopupMode::PartialBar)));
    blocks.insert("mem".to_string(), popup_block("mem", None));
    blocks.insert("clock".to_string(), popup_block("clock", Some(PopupMode::Block)));
    blocks.insert("vol".to_string(), popup_block("vol", Some(PopupMode::Bar)));
    let bar = Bar {
        blocks_left: vec!["cpu".into(), "mem".into()],
        blocks_center: vec!["clock".into()],
        blocks_right: vec!["vol".into()],
        monitor: None,
        height: 32,
        position: BarPosition::Bottom,
        margin: Margin::default(),
        background: Placeholder::default(),
        popup: true,
        popup_at_edge: false,
        show_if_matches: vec![],
        popup_show_if_some: vec![],
    };
    let mut config = Config {
        bar: vec![bar],
        blocks,
        vars: NameMap::new(),
        var_order: vec![],
        blocks_vec: vec![],
        vars_vec: vec![],
        commands: vec![],
        default_block_vec: vec![],
    };
    process_config(&mut config);
    let mut vars = VarMap::new();
    vars.insert(popup_var_name("cpu"), "C".into());
    vars.insert(popup_var_name("clock"), "K".into());
    vars.insert(popup_var_name("vol"), "V".into());
    let values = |name: &str| -> Vec<String> {
        match config.blocks.get(name).unwrap() {
            Block::Text(t) => t.display.popup_show_if_some.iter().map(|p| p.resolve(&vars).unwrap()).collect(),
            _ => vec![],
        }
    };
    assert_eq!(values("cpu"), vec!["C", "V"]);
    assert_eq!(values("mem"), vec!["C", "V"]);
    assert_eq!(values("clock"), vec!["K", "V"]);
    assert_eq!(values("vol"), vec!["V"]);
    let bar_values: Vec<String> = config.bar[0].popup_show_if_some.iter().map(|p| p.resolve(&vars).unwrap()).collect();
    assert_eq!(bar_values, vec!["V"]);
}

#[test]
fn popup_trigger_prolongs_a_running_timer() {
    let mut m = PopupManager::new();
    let first = m.trigger_popup("cpu", 10);
    assert!(!first.cancel_timer);
    assert!(first.show.is_some());
    let again = m.trigger_popup("cpu", 20);
    assert!(again.cancel_timer);
    assert!(again.show.is_none());
}

#[test]
fn bar_visibility() {
    assert_eq!(visible_from_vars(None, None), None);
    assert_eq!(visible_from_vars(Some(true), Some(false)), Some(false));
    assert_eq!(visible_from_vars(None, Some(true)), Some(true));
    let mut bar: Bar<Placeholder> = Bar {
        blocks_left: vec![],
        blocks_center: vec![],
        blocks_right: vec![],
        monitor: None,
        height: 32,
        position: BarPosition::Top,
        margin: Margin::default(),
        background: Placeholder::new("${bg}").unwrap(),
        popup: false,
        popup_at_edge: false,
        show_if_matches: vec![(Placeholder::new("${ws}").unwrap(), RegexPattern::new("^1$").unwrap())],
        popup_show_if_some: vec![],
    };
    let mut vars = VarMap::new();
    vars.insert("ws".into(), "1".into());
    vars.insert("bg".into(), "#000".into());
    assert_eq!(update_bar(&mut bar, &vars).unwrap(), Some(true));
    assert_eq!(bar.background.value, "#000");
    vars.insert("ws".into(), "2".into());
    assert_eq!(update_bar(&mut bar, &vars).unwrap(), Some(false));
}

#[test]
fn clicks_run_the_button_handler() {
    let mut h = EventHandlers::default();
    h.on_mouse_left = Placeholder::new("notify-send hi").unwrap();
    h.on_mouse_left.update(&VarMap::new()).unwrap();
    let (cmd, envs) = block_event_command(&h, Button::Left, "b", "v", vec![("BLOCK_INDEX".into(), "2".into())]).unwrap();
    assert_eq!(cmd, "notify-send hi");
    assert_eq!(
        envs,
        vec![
            ("BLOCK_INDEX".to_string(), "2".to_string()),
            ("BLOCK_NAME".to_string(), "b".to_string()),
            ("BLOCK_VALUE".to_string(), "v".to_string())
        ]
    );
    assert!(block_event_command(&h, Button::Right, "b", "v", vec![]).is_none());
}

#[test]
fn text_block_update_and_visibility() {
    let mut block = TextBlock {
        name: "t".into(),
        inherit: None,
        display: DisplayOptions { output_format: Placeholder::new("<${value}>").unwrap(), ..Default::default() },
        input: Input { value: Placeholder::new("${x}").unwrap(), ..Default::default() },
        separator_type: None,
        separator_radius: None,
        event_handlers: EventHandlers::default(),
    };
    let mut vars = VarMap::new();
    vars.insert("x".into(), "1".into());
    assert_eq!(update_text_block(&mut block, &vars).unwrap(), true);
    assert_eq!(block.display.output_format.value, "<1>");
    assert_eq!(update_text_block(&mut block, &vars).unwrap(), false);
    assert!(block_visible(&block.display));
    block.display.popup = Some(PopupMode::Block);
    block.display.popup_show_if_some = vec![Placeholder::default()];
    assert!(!block_visible(&block.display));
}

#[test]
fn enum_block_variants() {
    let mut block = EnumBlock {
        name: "ws".into(),
        inherit: None,
        active: Placeholder::new("${active}").unwrap(),
        variants: Placeholder::new("${variants}").unwrap(),
        input: Input { value: Placeholder::new("[${value}]").unwrap(), ..Default::default() },
        display: DisplayOptions::default(),
        active_display: DisplayOptions::default(),
        enum_separator: Some("::".into()),
        event_handlers: EventHandlers::default(),
    };
    let mut vars = VarMap::new();
    vars.insert("variants".into(), "a::b::c".into());
    vars.insert("active".into(), "2".into());
    let u = update_enum_block(&mut block, &vars);
    assert_eq!(u.variants, vec!["[a]", "[b]", "[c]"]);
    assert_eq!(u.active, Some(2));
    assert!(u.updated);
    assert_eq!(active_index("  "), Some(0));
    assert_eq!(active_index("x"), None);
}

#[test]
fn group_updates_decide_redraw_and_popups() {
    let o = |name: &str, popup: Option<PopupMode>, old: &str, new: &str, updated: bool, vis: (bool, bool)| BlockOutcome {
        name: name.into(),
        popup,
        old_popup_value: old.into(),
        new_popup_value: new.into(),
        updated,
        old_visible: vis.0,
        new_visible: vis.1,
    };
    let u: BlockUpdates = group_updates(&vec![
        o("a", Some(PopupMode::Block), "", "", true, (true, true)),
        o("b", Some(PopupMode::Bar), "1", "1", true, (true, true)),
        o("c", None, "", "", false, (true, true)),
    ]);
    assert!(u.popup.block.as_ref().unwrap().contains("a"));
    assert!(u.popup.bar.is_none());
    match u.redraw {
        RedrawScope::Partial(s) => assert!(s.contains("a") && s.contains("b") && !s.contains("c")),
        _ => panic!("expected a partial redraw"),
    }
    let u = group_updates(&vec![o("a", None, "", "", false, (true, false))]);
    assert!(matches!(u.redraw, RedrawScope::All));
    let u = group_updates(&vec![]);
    assert!(matches!(u.redraw, RedrawScope::Nothing));
    let mut merged = BlockUpdates { popup: PopupSets::new(), redraw: RedrawScope::Nothing };
    let mut s = NameSet::new();
    s.insert("z".into());
    merged.merge(BlockUpdates { popup: PopupSets::new(), redraw: RedrawScope::Partial(s) });
    assert!(matches!(merged.redraw, RedrawScope::Partial(_)));
}

#[test]
fn pango_markup_falls_back_to_the_default_block() {
    let def = DisplayOptions::<Placeholder> { pango_markup: Some(false), ..Default::default() };
    assert_eq!(opt_display().with_default(&def).pango_markup, Some(false));
    let unset = DisplayOptions::<Placeholder>::default();
    assert_eq!(opt_display().with_default(&unset).pango_markup, Some(true));
    let mut own = opt_display();
    own.pango_markup = Some(true);
    assert_eq!(own.with_default(&def).pango_markup, Some(true));
}
