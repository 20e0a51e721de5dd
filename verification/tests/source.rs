use oatbar::protocol::{Block, Header, I3Value};
use oatbar::source::{
    block_to_su_entry, command_interval, command_name, detect_format, strip_line_ending, CommandConfig, Format,
    FormatError, PlainSender,
};
use oatbar::state::Update;

fn config(name: Option<&str>, interval: Option<u64>) -> CommandConfig {
    CommandConfig {
        name: name.map(|s| s.to_string()),
        command: "echo hi".into(),
        interval,
        format: Format::Auto,
        line_names: vec![],
        once: false,
    }
}

#[test]
fn block_entries_come_in_field_order_then_full_text() {
    let block = Block {
        full_text: "text".into(),
        name: None,
        instance: Some("i".into()),
        other: vec![
            ("a".into(), I3Value::Str("s".into())),
            ("b".into(), I3Value::Bool(true)),
            ("c".into(), I3Value::Json("12".into())),
        ],
    };
    let entries = block_to_su_entry(7, block);
    assert_eq!(entries.len(), 4);
    assert_eq!(entries[0].name.as_deref(), Some("7"));
    assert_eq!(entries[0].instance.as_deref(), Some("i"));
    assert_eq!((entries[0].var.as_str(), entries[0].value.as_str()), ("a", "s"));
    assert_eq!((entries[1].var.as_str(), entries[1].value.as_str()), ("b", "true"));
    assert_eq!((entries[2].var.as_str(), entries[2].value.as_str()), ("c", "12"));
    assert_eq!((entries[3].var.as_str(), entries[3].value.as_str()), ("full_text", "text"));
}

#[test]
fn named_block_keeps_its_name() {
    let block = Block { full_text: "x".into(), name: Some("cpu".into()), instance: None, other: vec![("v".into(), I3Value::Bool(false))] };
    let entries = block_to_su_entry(0, block);
    assert_eq!(entries[0].name.as_deref(), Some("cpu"));
    assert_eq!(entries[0].value, "false");
}

#[test]
fn plain_lines_are_grouped_by_line_names() {
    let mut sender = PlainSender::new("cmd", vec!["first".into(), "second".into()]);
    assert!(sender.send("1".into()).is_none());
    match sender.send("2".into()) {
        Some(Update::VarUpdate(u)) => {
            assert_eq!(u.command_name.as_deref(), Some("cmd"));
            assert_eq!(u.entries.len(), 2);
            assert_eq!((u.entries[0].var.as_str(), u.entries[0].value.as_str()), ("first", "1"));
            assert_eq!((u.entries[1].var.as_str(), u.entries[1].value.as_str()), ("second", "2"));
        }
        _ => panic!("expected an update after a full round"),
    }
    assert!(sender.send("3".into()).is_none());
}

#[test]
fn plain_lines_without_names_set_value() {
    let mut sender = PlainSender::new("c", vec![]);
    match sender.send("v".into()) {
        Some(Update::VarUpdate(u)) => assert_eq!(u.entries[0].var, "value"),
        _ => panic!("expected an update"),
    }
}

#[test]
fn line_endings_are_stripped() {
    assert_eq!(strip_line_ending("abc\n"), "abc");
    assert_eq!(strip_line_ending("abc\r\n"), "abc");
    assert_eq!(strip_line_ending("abc\r"), "abc\r");
    assert_eq!(strip_line_ending("abc"), "abc");
    assert_eq!(strip_line_ending("\n"), "");
}

#[test]
fn format_is_detected_from_the_header() {
    assert_eq!(detect_format(Format::Auto, Some(Header { version: 1 })), Ok(Format::I3bar));
    assert_eq!(detect_format(Format::Auto, None), Ok(Format::Plain));
    assert_eq!(detect_format(Format::I3bar, None), Err(FormatError::NoHeader));
    assert_eq!(detect_format(Format::Auto, Some(Header { version: 2 })), Err(FormatError::UnexpectedVersion(2)));
    assert_eq!(Header::default().version, 1);
}

#[test]
fn command_names_and_intervals() {
    assert_eq!(command_name(&config(None, None), 3), "cm3");
    assert_eq!(command_name(&config(Some("clock"), None), 3), "clock");
    assert_eq!(command_interval(&config(None, None)), 10);
    assert_eq!(command_interval(&config(None, Some(2))), 2);
    assert_eq!(oatbar::source::default_format(), Format::Auto);
}
