use oatbar::clock::Clock;
use oatbar::ewmh::{names_window, title_update};
use oatbar::llm::{result_name, Command, VariableKind};
use oatbar::mcp::{status_report_vars, var_name, ConfigContainer, McpConfig, StatusSequence};
use oatbar::mpris::{format_duration, short_name, track_text};
use oatbar::notify::Notifier;
use oatbar::pidfile::Pidfile;
use oatbar::state::Update;
use oatbar::timer::{Timer, TimerStep};
use oatbar::xrandr::{pick_monitor, Monitor};

#[test]
fn durations() {
    assert_eq!(format_duration(0), "00:00");
    assert_eq!(format_duration(-5), "00:00");
    assert_eq!(format_duration(65), "01:05");
    assert_eq!(format_duration(3599), "59:59");
    assert_eq!(format_duration(3600), "1:00:00");
    assert_eq!(format_duration(36000 + 62), "10:01:02");
}

#[test]
fn players_and_tracks() {
    assert_eq!(short_name("org.mpris.MediaPlayer2.spotify"), "spotify");
    assert_eq!(short_name("org.other"), "org.other");
    assert_eq!(track_text("Artist", "Song"), "Artist - Song");
    assert_eq!(track_text("", "Song"), "Song");
    assert_eq!(track_text("Artist", ""), "Artist");
    assert_eq!(track_text("", ""), "");
}

#[test]
fn allowed_answers() {
    let answers = VariableKind::String { allowed_answers: Some(vec!["yes".into(), "no".into()]), max_length: None };
    assert_eq!(answers.describe_allowed_answers(), "[\"yes\", \"no\"] without quotes");
    let limited = VariableKind::String { allowed_answers: None, max_length: Some(12) };
    assert_eq!(limited.describe_allowed_answers(), "any string (max length: 12)");
    let any = VariableKind::String { allowed_answers: None, max_length: None };
    assert_eq!(any.describe_allowed_answers(), "any string");
    assert_eq!(VariableKind::Boolean.describe_allowed_answers(), "true or false");
    assert_eq!(VariableKind::Number.describe_allowed_answers(), "any number");
    assert_eq!(result_name(&Command { name: None, cmd: "date".into() }), "date");
    assert_eq!(result_name(&Command { name: Some("d".into()), cmd: "date".into() }), "d");
}

#[test]
fn mcp_variables() {
    let config = McpConfig::default();
    assert_eq!(config.recent_timeout_seconds, 5);
    assert_eq!(var_name(&config, "value"), "mcp:value");
    let named = McpConfig { hidden_variables: vec!["^secret".into()], recent_timeout_seconds: 1, mcp_name: Some("bot".into()) };
    assert_eq!(var_name(&named, "agent"), "mcp:bot.agent");
    let vars = status_report_vars(&named, "busy".into(), Some("helper".into()));
    let got: Vec<(&str, &str)> = vars.iter().map(|(k, v)| (k.as_str(), v.as_str())).collect();
    assert_eq!(got, vec![("mcp:bot.value", "busy"), ("mcp:bot.agent", "helper"), ("mcp:bot.recent", "1")]);
    let c = ConfigContainer::new(named).unwrap();
    assert!(c.is_hidden("secret_key"));
    assert!(!c.is_hidden("public"));
    let bad = McpConfig { hidden_variables: vec!["(".into()], recent_timeout_seconds: 1, mcp_name: None };
    assert!(ConfigContainer::new(bad).is_err());
    let mut seq = StatusSequence::new();
    let first = seq.next();
    let second = seq.next();
    assert!(!seq.is_last(first));
    assert!(seq.is_last(second));
}

#[test]
fn timers() {
    let mut t = Timer::new(100);
    assert_eq!(t.step(40), TimerStep::Sleep(60));
    assert_eq!(t.step(100), TimerStep::Sleep(0));
    assert_eq!(t.step(101), TimerStep::Fire);
    t.set_at(500);
    assert_eq!(t.elapses_at(), 500);
}

#[test]
fn notifications_replace_by_name() {
    let mut n = Notifier::new();
    assert_eq!(n.notify_args("vol", "Volume", "50%"), vec!["-p", "Volume", "50%"]);
    n.record_id("vol", " 17\n");
    assert_eq!(n.notify_args("vol", "Volume", "60%"), vec!["-p", "-r", "17", "Volume", "60%"]);
    n.record_id("vol", "garbage");
    assert_eq!(*n.ids.get("vol").unwrap(), 17);
}

#[test]
fn pid_file_contents() {
    assert_eq!(Pidfile::parse("1234"), Some(1234));
    assert_eq!(Pidfile::parse("1234\n"), None);
    assert_eq!(Pidfile::parse("99999999999"), None);
}

#[test]
fn clock_and_title_updates() {
    match (Clock { format: "%H:%M".into() }).update("10:30".into()) {
        Update::VarUpdate(u) => {
            assert_eq!(u.entries[0].name.as_deref(), Some("clock"));
            assert_eq!(u.entries[0].var, "datetime");
            assert_eq!(u.entries[0].value, "10:30");
        }
        _ => panic!("expected a variable update"),
    }
    match title_update("t".into()) {
        Update::VarUpdate(u) => assert_eq!(u.entries[0].name.as_deref(), Some("active_window")),
        _ => panic!("expected a variable update"),
    }
    assert!(!names_window(0));
    assert!(!names_window(u32::MAX));
    assert!(names_window(5));
}

#[test]
fn monitors() {
    let m = |name: &str, primary: bool| Monitor { name: name.into(), primary, x: 0, y: 0, width: 1, height: 1 };
    let list = vec![m("DP-1", false), m("eDP-1", true), m("HDMI-1", false)];
    assert_eq!(pick_monitor(&list, &None), Ok(Some(1)));
    assert_eq!(pick_monitor(&list, &Some("HDMI-1".into())), Ok(Some(2)));
    assert_eq!(pick_monitor(&list, &Some("VGA".into())), Err(()));
    assert_eq!(pick_monitor(&vec![], &Some("VGA".into())), Ok(None));
    let no_primary = vec![m("a", false), m("b", false)];
    assert_eq!(pick_monitor(&no_primary, &None), Ok(Some(0)));
}

#[test]
fn whitespace_and_lowercase_agree_with_std() {
    for u in 0u32..=0x10FFFF {
        if let Some(c) = char::from_u32(u) {
            assert_eq!(oatbar::text::is_whitespace(c), c.is_whitespace(), "U+{:04X}", u);
            assert_eq!(oatbar::text::to_ascii_lowercase(c), c.to_ascii_lowercase(), "U+{:04X}", u);
        }
    }
}
