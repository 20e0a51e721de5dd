//! The MPRIS helper: which player is followed, and what is shown of the
//! playing track.

use vstd::prelude::*;
use crate::decimal::{i64_to_string, signed_decimal};
use crate::protocol::{fields_view, Block, I3Value, I3ValueView};
use crate::text::{owned, push_str, str_eq};

verus! {

/// The prefix of the bus names of media players.
pub open spec fn mpris_prefix() -> Seq<char> {
    seq!['o', 'r', 'g', '.', 'm', 'p', 'r', 'i', 's', '.', 'M', 'e', 'd', 'i', 'a', 'P', 'l', 'a', 'y', 'e', 'r', '2', '.']
}

/// A player's bus name without the MPRIS prefix, when it has it.
pub open spec fn spec_short_name(bus_name: Seq<char>) -> Seq<char> {
    if bus_name.len() >= mpris_prefix().len() && bus_name.take(mpris_prefix().len() as int) == mpris_prefix() {
        bus_name.skip(mpris_prefix().len() as int)
    } else {
        bus_name
    }
}

/// A player's bus name without `org.mpris.MediaPlayer2.`.
pub fn short_name(bus_name: &str) -> (r: String)
    ensures
        r@ == spec_short_name(bus_name@),
{
    let prefix = "org.mpris.MediaPlayer2.";
    proof {
        reveal_strlit("org.mpris.MediaPlayer2.");
        assert(prefix@ =~= mpris_prefix());
    }
    let v = crate::text::chars_of(bus_name);
    let p = crate::text::chars_of(prefix);
    if v.len() >= p.len() && crate::text::range_equals(&v, 0, p.len(), &p) {
        assert(v@.subrange(0, p@.len() as int) == v@.take(p@.len() as int));
        let r = crate::text::string_of(&v, p.len(), v.len());
        assert(v@.subrange(p@.len() as int, v@.len() as int) == v@.skip(p@.len() as int));
        r
    } else {
        proof {
            if v@.len() >= p@.len() {
                assert(v@.subrange(0, p@.len() as int) == v@.take(p@.len() as int));
            }
        }
        owned(bus_name)
    }
}

/// The digits of `n`, at least two (`{:02}`).
pub open spec fn two_digits(n: nat) -> Seq<char> {
    if n < 10 {
        seq!['0'] + crate::decimal::decimal(n)
    } else {
        crate::decimal::decimal(n)
    }
}

/// A duration as `h:mm:ss`, or `mm:ss` under an hour; negative durations count as zero.
pub open spec fn spec_format_duration(seconds: i64) -> Seq<char> {
    let s: nat = if seconds < 0 { 0 } else { seconds as nat };
    let hours = s / 3600;
    let minutes = (s % 3600) / 60;
    let secs = s % 60;
    if hours > 0 {
        crate::decimal::decimal(hours) + seq![':'] + two_digits(minutes) + seq![':'] + two_digits(secs)
    } else {
        two_digits(minutes) + seq![':'] + two_digits(secs)
    }
}

fn push_two_digits(out: &mut String, n: u64)
    requires
        n < 100,
    ensures
        final(out)@ == old(out)@ + two_digits(n as nat),
{
    if n < 10 {
        crate::text::push_char(out, '0');
    }
    let d = crate::decimal::u64_to_string(n);
    push_str(out, d.as_str());
}

/// A duration in seconds as text (see `spec_format_duration`).
pub fn format_duration(seconds: i64) -> (r: String)
    ensures
        r@ == spec_format_duration(seconds),
{
    let s: u64 = if seconds < 0 { 0 } else { seconds as u64 };
    let hours = s / 3600;
    let minutes = (s % 3600) / 60;
    let secs = s % 60;
    let mut r = String::new();
    if hours > 0 {
        let h = crate::decimal::u64_to_string(hours);
        push_str(&mut r, h.as_str());
        crate::text::push_char(&mut r, ':');
    }
    push_two_digits(&mut r, minutes);
    crate::text::push_char(&mut r, ':');
    push_two_digits(&mut r, secs);
    r
}

/// What is shown of a track: `artist - title`, or whichever is not empty.
pub open spec fn spec_track_text(artist: Seq<char>, title: Seq<char>) -> Seq<char> {
    if artist.len() > 0 && title.len() > 0 {
        artist + seq![' ', '-', ' '] + title
    } else if title.len() > 0 {
        title
    } else {
        artist
    }
}

/// What is shown of a track (see `spec_track_text`).
pub fn track_text(artist: &str, title: &str) -> (r: String)
    ensures
        r@ == spec_track_text(artist@, title@),
{
    let a = crate::text::chars_of(artist).len();
    let t = crate::text::chars_of(title).len();
    if a > 0 && t > 0 {
        let sep = " - ";
        proof {
            reveal_strlit(" - ");
        }
        let mut r = owned(artist);
        push_str(&mut r, sep);
        push_str(&mut r, title);
        r
    } else if t > 0 {
        owned(title)
    } else {
        owned(artist)
    }
}

/// Whether a bus name is a media player's: it starts with the MPRIS prefix.
pub open spec fn is_player_name(n: Seq<char>) -> bool {
    n.len() >= mpris_prefix().len() && n.take(mpris_prefix().len() as int) == mpris_prefix()
}

/// The players among the bus names, in order.
pub open spec fn players_among(names: Seq<String>) -> Seq<Seq<char>>
    decreases names.len(),
{
    if names.len() == 0 {
        Seq::empty()
    } else {
        let rest = players_among(names.drop_last());
        if is_player_name(names.last()@) {
            rest.push(names.last()@)
        } else {
            rest
        }
    }
}

fn is_player(name: &str) -> (r: bool)
    ensures
        r == is_player_name(name@),
{
    let prefix = "org.mpris.MediaPlayer2.";
    proof {
        reveal_strlit("org.mpris.MediaPlayer2.");
        assert(prefix@ =~= mpris_prefix());
    }
    let v = crate::text::chars_of(name);
    let p = crate::text::chars_of(prefix);
    if v.len() >= p.len() {
        assert(v@.subrange(0, p@.len() as int) == v@.take(p@.len() as int));
        crate::text::range_equals(&v, 0, p.len(), &p)
    } else {
        false
    }
}

/// The media players among the names on the bus.
pub fn player_candidates(names: &Vec<String>) -> (r: Vec<String>)
    ensures
        crate::text::strings_view(r@) == players_among(names@),
{
    let mut r: Vec<String> = Vec::new();
    let mut i: usize = 0;
    while i < names.len()
        invariant
            i <= names@.len(),
            crate::text::strings_view(r@) == players_among(names@.take(i as int)),
        decreases names@.len() - i,
    {
        assert(names@.take(i + 1).drop_last() =~= names@.take(i as int));
        assert(names@.take(i + 1).last() == names@[i as int]);
        let ghost before = crate::text::strings_view(r@);
        if is_player(names[i].as_str()) {
            r.push(names[i].clone());
            assert(crate::text::strings_view(r@) =~= before.push(names@[i as int]@));
        }
        i += 1;
    }
    assert(names@.take(i as int) =~= names@);
    r
}

/// How a player ranks by its playback status: playing first, then paused,
/// then the rest, a status that could not be read among them.
pub open spec fn status_rank(status: Option<String>) -> nat {
    match status {
        Some(s) => if s@ == "Playing"@ {
            0
        } else if s@ == "Paused"@ {
            1
        } else {
            2
        },
        None => 2,
    }
}

/// The first player of the best rank.
pub open spec fn best_index(players: Seq<(String, Option<String>)>) -> int
    decreases players.len(),
{
    if players.len() <= 1 {
        0
    } else {
        let i = best_index(players.drop_last());
        if status_rank(players.last().1) < status_rank(players[i].1) {
            players.len() - 1
        } else {
            i
        }
    }
}

fn rank(status: &Option<String>) -> (r: u8)
    ensures
        r == status_rank(*status),
{
    match status {
        Some(s) => if str_eq(s.as_str(), "Playing") {
            0
        } else if str_eq(s.as_str(), "Paused") {
            1
        } else {
            2
        },
        None => 2,
    }
}

/// The player to follow, of the players with their playback statuses (none
/// where it could not be read): the first playing one, else the first
/// paused one, else the first.
pub fn best_player(players: &Vec<(String, Option<String>)>) -> (r: Option<String>)
    ensures
        match r {
            Some(n) => players@.len() > 0 && n == players@[best_index(players@)].0,
            None => players@.len() == 0,
        },
{
    if players.len() == 0 {
        return None;
    }
    let mut best: usize = 0;
    let mut best_rank = rank(&players[0].1);
    let mut i: usize = 1;
    assert(players@.take(1).len() == 1);
    while i < players.len()
        invariant
            1 <= i <= players@.len(),
            best < i,
            best == best_index(players@.take(i as int)),
            best_rank == status_rank(players@[best as int].1),
        decreases players@.len() - i,
    {
        let ghost t = players@.take(i + 1);
        assert(t.drop_last() =~= players@.take(i as int));
        assert(t.last() == players@[i as int]);
        assert(t[best as int] == players@[best as int]);
        let r = rank(&players[i].1);
        if r < best_rank {
            best = i;
            best_rank = r;
        }
        i += 1;
    }
    assert(players@.take(i as int) =~= players@);
    Some(players[best].0.clone())
}

/// The block shown while no player is followed.
pub fn empty_block() -> (r: Block)
    ensures
        r.name matches Some(n) && n@ == "mpris"@,
        r.instance is None,
        r.full_text@.len() == 0,
        fields_view(r.other@) == seq![("playback_status"@, I3ValueView::Str(Seq::empty()))],
{
    let mut other: Vec<(String, I3Value)> = Vec::new();
    other.push((owned("playback_status"), I3Value::Str(String::new())));
    assert(fields_view(other@) =~= seq![("playback_status"@, I3ValueView::Str(Seq::empty()))]);
    Block { full_text: String::new(), name: Some(owned("mpris")), instance: None, other }
}

/// Microseconds in whole seconds, rounded toward zero as `/` does.
pub open spec fn whole_seconds(us: i64) -> int {
    if us >= 0 {
        us / 1_000_000
    } else {
        -((-us) / 1_000_000)
    }
}

fn to_seconds(us: i64) -> (r: i64)
    ensures
        r == whole_seconds(us),
{
    if us >= 0 {
        us / 1_000_000
    } else {
        (0i128 - ((0i128 - us as i128) / 1_000_000)) as i64
    }
}

/// A text field, present only when the text is not empty.
pub open spec fn nonempty_field(key: Seq<char>, v: Seq<char>) -> Seq<(Seq<char>, I3ValueView)> {
    if v.len() > 0 {
        seq![(key, I3ValueView::Str(v))]
    } else {
        Seq::empty()
    }
}

/// The fields of a player's block.
pub open spec fn player_fields(
    bus_name: Seq<char>,
    identity: Seq<char>,
    playback_status: Seq<char>,
    title: Seq<char>,
    artist: Seq<char>,
    album: Seq<char>,
    length_us: Option<i64>,
    volume_percent: i64,
    position_us: i64,
    rate_json: Seq<char>,
) -> Seq<(Seq<char>, I3ValueView)> {
    seq![
        ("playback_status"@, I3ValueView::Str(playback_status)),
        ("player_name"@, I3ValueView::Str(identity)),
        ("volume"@, I3ValueView::Json(signed_decimal(volume_percent as int))),
        ("track"@, I3ValueView::Str(spec_track_text(artist, title))),
        ("position"@, I3ValueView::Json(signed_decimal(whole_seconds(position_us)))),
        ("position_str"@, I3ValueView::Str(spec_format_duration(whole_seconds(position_us) as i64))),
        ("rate"@, I3ValueView::Json(rate_json)),
    ] + nonempty_field("title"@, title) + nonempty_field("artist"@, artist) + nonempty_field("album"@, album)
        + match length_us {
        Some(l) => seq![
            ("length"@, I3ValueView::Json(signed_decimal(whole_seconds(l)))),
            ("length_str"@, I3ValueView::Str(spec_format_duration(whole_seconds(l) as i64))),
        ],
        None => Seq::empty(),
    } + seq![("player"@, I3ValueView::Str(spec_short_name(bus_name)))]
}

fn push_nonempty(other: &mut Vec<(String, I3Value)>, key: &str, v: &str)
    ensures
        fields_view(final(other)@) == fields_view(old(other)@) + nonempty_field(key@, v@),
{
    if crate::text::chars_of(v).len() > 0 {
        other.push((owned(key), I3Value::Str(owned(v))));
    }
    assert(fields_view(other@) =~= fields_view(old(other)@) + nonempty_field(key@, v@));
}

/// The block of the followed player: its status, name, volume (in percent),
/// track, position and rate, the track's title, artist and album where
/// known, its length when given, and the track as the text.
/// `rate_json` is the playback rate written as JSON.
pub fn build_block(
    bus_name: &str,
    identity: &str,
    playback_status: &str,
    title: &str,
    artist: &str,
    album: &str,
    length_us: Option<i64>,
    volume_percent: i64,
    position_us: i64,
    rate_json: &str,
) -> (r: Block)
    ensures
        r.name matches Some(n) && n@ == "mpris"@,
        r.instance is None,
        r.full_text@ == spec_track_text(artist@, title@),
        fields_view(r.other@) == player_fields(
            bus_name@,
            identity@,
            playback_status@,
            title@,
            artist@,
            album@,
            length_us,
            volume_percent,
            position_us,
            rate_json@,
        ),
{
    let track = track_text(artist, title);
    let full_text = track.clone();
    let position = to_seconds(position_us);
    let mut other: Vec<(String, I3Value)> = Vec::new();
    other.push((owned("playback_status"), I3Value::Str(owned(playback_status))));
    other.push((owned("player_name"), I3Value::Str(owned(identity))));
    other.push((owned("volume"), I3Value::Json(i64_to_string(volume_percent))));
    other.push((owned("track"), I3Value::Str(track)));
    other.push((owned("position"), I3Value::Json(i64_to_string(position))));
    other.push((owned("position_str"), I3Value::Str(format_duration(position))));
    other.push((owned("rate"), I3Value::Json(owned(rate_json))));
    push_nonempty(&mut other, "title", title);
    push_nonempty(&mut other, "artist", artist);
    push_nonempty(&mut other, "album", album);
    let ghost with_texts = fields_view(other@);
    match length_us {
        Some(l) => {
            let length = to_seconds(l);
            other.push((owned("length"), I3Value::Json(i64_to_string(length))));
            other.push((owned("length_str"), I3Value::Str(format_duration(length))));
        },
        None => {},
    }
    let ghost with_length = fields_view(other@);
    other.push((owned("player"), I3Value::Str(short_name(bus_name))));
    assert(fields_view(other@) =~= with_length + seq![("player"@, I3ValueView::Str(spec_short_name(bus_name@)))]);
    assert(with_length =~= with_texts + match length_us {
        Some(l) => seq![
            ("length"@, I3ValueView::Json(signed_decimal(whole_seconds(l)))),
            ("length_str"@, I3ValueView::Str(spec_format_duration(whole_seconds(l) as i64))),
        ],
        None => Seq::empty(),
    });
    Block { full_text, name: Some(owned("mpris")), instance: None, other }
}

} // verus!
