use oatbar::mpris::{best_player, build_block, empty_block, player_candidates};
use oatbar::protocol::I3Value;

fn texts(other: &[(String, I3Value)]) -> Vec<(String, String)> {
    other
        .iter()
        .map(|(k, v)| {
            let v = match v {
                I3Value::Str(s) => s.clone(),
                I3Value::Json(s) => format!("json:{}", s),
                I3Value::Bool(b) => format!("bool:{}", b),
            };
            (k.clone(), v)
        })
        .collect()
}

fn pairs(v: &[(&str, &str)]) -> Vec<(String, String)> {
    v.iter().map(|(k, v)| (k.to_string(), v.to_string())).collect()
}

#[test]
fn players_are_the_mpris_names() {
    let names: Vec<String> =
        ["org.freedesktop.DBus", "org.mpris.MediaPlayer2.spotify", ":1.5", "org.mpris.MediaPlayer2.vlc", "org.mpris"]
            .iter()
            .map(|s| s.to_string())
            .collect();
    assert_eq!(player_candidates(&names), vec!["org.mpris.MediaPlayer2.spotify", "org.mpris.MediaPlayer2.vlc"]);
}

#[test]
fn a_playing_player_is_followed_first() {
    let p = |n: &str, s: Option<&str>| (n.to_string(), s.map(|s| s.to_string()));
    assert_eq!(
        best_player(&vec![p("a", Some("Stopped")), p("b", Some("Paused")), p("c", Some("Playing")), p("d", Some("Playing"))]),
        Some("c".to_string())
    );
    assert_eq!(best_player(&vec![p("x", Some("Paused")), p("y", Some("Paused"))]), Some("x".to_string()));
    assert_eq!(best_player(&vec![p("a", None), p("b", Some("Stopped"))]), Some("a".to_string()));
    assert_eq!(best_player(&vec![]), None);
}

#[test]
fn the_empty_block_has_a_blank_status() {
    let b = empty_block();
    assert_eq!(b.name.as_deref(), Some("mpris"));
    assert_eq!(b.full_text, "");
    assert_eq!(texts(&b.other), pairs(&[("playback_status", "")]));
}

#[test]
fn a_player_block_describes_the_track() {
    let b = build_block(
        "org.mpris.MediaPlayer2.spotify",
        "Spotify",
        "Playing",
        "Song",
        "Artist",
        "",
        Some(245_000_000),
        75,
        61_500_000,
        "1.0",
    );
    assert_eq!(b.full_text, "Artist - Song");
    assert!(b.instance.is_none());
    assert_eq!(
        texts(&b.other),
        pairs(&[
            ("playback_status", "Playing"),
            ("player_name", "Spotify"),
            ("volume", "json:75"),
            ("track", "Artist - Song"),
            ("position", "json:61"),
            ("position_str", "01:01"),
            ("rate", "json:1.0"),
            ("title", "Song"),
            ("artist", "Artist"),
            ("length", "json:245"),
            ("length_str", "04:05"),
            ("player", "spotify"),
        ])
    );
}

#[test]
fn a_player_block_without_a_track() {
    let b = build_block("vlc", "VLC", "Stopped", "", "", "", None, 0, -1_500_000, "1.0");
    assert_eq!(b.full_text, "");
    assert_eq!(
        texts(&b.other),
        pairs(&[
            ("playback_status", "Stopped"),
            ("player_name", "VLC"),
            ("volume", "json:0"),
            ("track", ""),
            ("position", "json:-1"),
            ("position_str", "00:00"),
            ("rate", "json:1.0"),
            ("player", "vlc"),
        ])
    );
}
