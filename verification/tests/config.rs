use oatbar::config::{DisplayOptions, EnumBlock, EventHandlers, Input};
use oatbar::parse::Placeholder;
use oatbar::vars::VarMap;

#[test]
fn test_placeholder_replace() {
    let mut map = VarMap::new();
    map.insert("foo".into(), "hello".into());
    let mut block = EnumBlock {
        name: "".into(),
        inherit: None,
        active: Placeholder::infallable("a ${foo} b"),
        variants: Placeholder::infallable(""),
        display: DisplayOptions {
            font: Placeholder::infallable("b ${foo} c"),
            ..Default::default()
        },
        active_display: DisplayOptions {
            ..Default::default()
        },
        input: Input::default(),
        enum_separator: None,
        event_handlers: EventHandlers::default(),
    };
    block.active.update(&map).unwrap();
    block.display.update(&map).unwrap();
    assert_eq!(block.active.value, "a hello b");
    assert_eq!(block.display.font.value, "b hello c");
}
