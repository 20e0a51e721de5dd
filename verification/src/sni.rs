//! The tray helper: the status notifier items as i3bar blocks, what a click
//! on one does, and the lines of an item's menu.

use vstd::prelude::*;
use crate::decimal::{decimal, i32_to_string, parse_i32_range, signed_decimal, spec_parse_i32, u64_to_string};
use crate::parse::repeat;
use crate::pattern::{regex_compiles, regex_is_match, RegexPattern};
use crate::protocol::{fields_view, opt_field, Block, I3Value, I3ValueView};
use crate::text::{
    blank, chars_of, is_blank, is_whitespace, is_ws, join, push_char, str_eq, join_with, owned, push_str, rfind_char, rfind_char_in, skip_start, string_of,
    strings_view, trim_start_spec,
};

verus! {

/// The default object path of a status notifier item.
pub open spec fn default_item_path() -> Seq<char> {
    "/StatusNotifierItem"@
}

/// An icon: its size and its ARGB pixels.
#[derive(Debug, Clone)]
pub struct Pixmap {
    pub width: i32,
    pub height: i32,
    pub data: Vec<u8>,
}

/// The tooltip of an item.
#[derive(Debug, Clone)]
pub struct Tooltip {
    pub icon_name: String,
    pub icon_pixmaps: Vec<Pixmap>,
    pub title: String,
    pub description: String,
}

/// What a tooltip shows: its title and its description, whichever are not
/// empty, joined by `: `.
pub open spec fn spec_display_text(t: Tooltip) -> Option<Seq<char>> {
    if t.title@.len() > 0 && t.description@.len() > 0 {
        Some(t.title@ + ": "@ + t.description@)
    } else if t.title@.len() > 0 {
        Some(t.title@)
    } else if t.description@.len() > 0 {
        Some(t.description@)
    } else {
        None
    }
}

impl Tooltip {
    /// What the tooltip shows; none when both its title and its description
    /// are empty.
    pub fn display_text(&self) -> (r: Option<String>)
        ensures
            match r {
                Some(t) => spec_display_text(*self) == Some(t@),
                None => spec_display_text(*self) is None,
            },
    {
        let has_title = self.title.as_str().unicode_len() > 0;
        let has_description = self.description.as_str().unicode_len() > 0;
        if has_title && has_description {
            let mut t = self.title.clone();
            push_str(&mut t, ": ");
            push_str(&mut t, self.description.as_str());
            Some(t)
        } else if has_title {
            Some(self.title.clone())
        } else if has_description {
            Some(self.description.clone())
        } else {
            None
        }
    }
}

/// The properties of a status notifier item, and where it is on the bus.
#[derive(Debug, Clone)]
pub struct StatusNotifierItemProperties {
    pub dbus_destination: String,
    pub dbus_path: String,
    pub visible: bool,
    pub category: Option<String>,
    pub id: Option<String>,
    pub title: Option<String>,
    pub status: Option<String>,
    pub window_id: Option<i32>,
    pub icon_name: Option<String>,
    pub icon_pixmap: Option<Vec<Pixmap>>,
    pub tool_tip: Option<Tooltip>,
    pub item_is_menu: Option<bool>,
    /// The object path of the item's menu.
    pub menu: Option<String>,
    pub icon_theme_path: Option<String>,
}

/// The area of a pixmap.
pub open spec fn area(p: Pixmap) -> int {
    p.width * p.height
}

/// The areas of the pixmaps fit in an `i32`.
pub open spec fn areas_fit(v: Seq<Pixmap>) -> bool {
    forall|i: int| 0 <= i < v.len() ==> i32::MIN <= #[trigger] area(v[i]) <= i32::MAX
}

/// Which pixmap is the largest by area; of equal ones, the last.
pub open spec fn largest_index(v: Seq<Pixmap>) -> int
    decreases v.len(),
{
    if v.len() <= 1 {
        0
    } else {
        let i = largest_index(v.drop_last());
        if area(v.last()) >= area(v[i]) {
            v.len() - 1
        } else {
            i
        }
    }
}

/// A pixmap as a JSON array: its width, its height, then its ARGB bytes.
pub open spec fn pixmap_json(p: Pixmap) -> Seq<char> {
    "["@ + join_with(
        seq![signed_decimal(p.width as int), signed_decimal(p.height as int)] + p.data@.map_values(
            |b: u8| decimal(b as nat),
        ),
        ","@,
    ) + "]"@
}

/// The fields of the largest icon, when there is one.
pub open spec fn pixmap_fields(o: Option<Vec<Pixmap>>) -> Seq<(Seq<char>, I3ValueView)> {
    match o {
        Some(v) => if v@.len() > 0 {
            let p = v@[largest_index(v@)];
            seq![
                ("pixmap_width"@, I3ValueView::Json(signed_decimal(p.width as int))),
                ("pixmap_height"@, I3ValueView::Json(signed_decimal(p.height as int))),
                ("pixmap"@, I3ValueView::Json(pixmap_json(p))),
            ]
        } else {
            Seq::empty()
        },
        None => Seq::empty(),
    }
}

/// The text of an optional tooltip.
pub open spec fn tooltip_text(o: Option<Tooltip>) -> Option<Seq<char>> {
    match o {
        Some(t) => spec_display_text(t),
        None => None,
    }
}

/// The fields of an item's block.
pub open spec fn item_fields(p: StatusNotifierItemProperties) -> Seq<(Seq<char>, I3ValueView)> {
    seq![
        ("visible"@, I3ValueView::Str(if p.visible { "1"@ } else { ""@ })),
        ("dbus"@, I3ValueView::Str(p.dbus_destination@ + ":"@ + p.dbus_path@)),
    ] + opt_field("category"@, p.category) + opt_field("title"@, p.title) + opt_field("status"@, p.status)
        + opt_field("icon_name"@, p.icon_name) + opt_field("icon_theme_path"@, p.icon_theme_path)
        + match p.window_id {
        Some(w) => seq![("window_id"@, I3ValueView::Json(signed_decimal(w as int)))],
        None => Seq::empty(),
    } + pixmap_fields(p.icon_pixmap) + match tooltip_text(p.tool_tip) {
        Some(t) => seq![("tooltip"@, I3ValueView::Str(t))],
        None => Seq::empty(),
    }
}

/// The text of an item's block: its tooltip, else its title, else its id.
pub open spec fn item_text(p: StatusNotifierItemProperties) -> Seq<char> {
    match tooltip_text(p.tool_tip) {
        Some(t) => t,
        None => match p.title {
            Some(t) => t@,
            None => match p.id {
                Some(i) => i@,
                None => Seq::empty(),
            },
        },
    }
}

fn push_opt(other: &mut Vec<(String, I3Value)>, key: &str, o: &Option<String>)
    ensures
        fields_view(final(other)@) == fields_view(old(other)@) + opt_field(key@, *o),
{
    match o {
        Some(v) => other.push((owned(key), I3Value::Str(v.clone()))),
        None => {},
    }
    assert(fields_view(other@) =~= fields_view(old(other)@) + opt_field(key@, *o));
}

fn largest(v: &Vec<Pixmap>) -> (r: usize)
    requires
        v@.len() > 0,
        areas_fit(v@),
    ensures
        r == largest_index(v@),
        r < v@.len(),
{
    let mut best: usize = 0;
    let mut i: usize = 1;
    assert(v@.take(1).len() == 1);
    while i < v.len()
        invariant
            1 <= i <= v@.len(),
            best < i,
            areas_fit(v@),
            best == largest_index(v@.take(i as int)),
        decreases v@.len() - i,
    {
        let ghost t = v@.take(i + 1);
        assert(t.drop_last() =~= v@.take(i as int));
        assert(t.last() == v@[i as int]);
        assert(t[best as int] == v@[best as int]);
        assert(i32::MIN <= area(v@[i as int]) <= i32::MAX);
        assert(i32::MIN <= area(v@[best as int]) <= i32::MAX);
        let a = v[i].width * v[i].height;
        let b = v[best].width * v[best].height;
        if a >= b {
            best = i;
        }
        i += 1;
    }
    assert(v@.take(i as int) =~= v@);
    best
}

fn pixmap_to_json(p: &Pixmap) -> (r: String)
    ensures
        r@ == pixmap_json(*p),
{
    let mut parts: Vec<String> = Vec::new();
    parts.push(i32_to_string(p.width));
    parts.push(i32_to_string(p.height));
    let d = &p.data;
    let mut i: usize = 0;
    while i < d.len()
        invariant
            i <= d@.len(),
            parts@.len() == i + 2,
            parts@[0]@ == signed_decimal(p.width as int),
            parts@[1]@ == signed_decimal(p.height as int),
            forall|k: int| 0 <= k < i ==> #[trigger] parts@[k + 2]@ == decimal(d@[k] as nat),
        decreases d@.len() - i,
    {
        parts.push(u64_to_string(d[i] as u64));
        i += 1;
    }
    let ghost want = seq![signed_decimal(p.width as int), signed_decimal(p.height as int)] + d@.map_values(
        |b: u8| decimal(b as nat),
    );
    assert forall|k: int| 0 <= k < want.len() implies #[trigger] strings_view(parts@)[k] == want[k] by {
        if k >= 2 {
            assert(parts@[(k - 2) + 2]@ == decimal(d@[k - 2] as nat));
        }
    }
    assert(strings_view(parts@) =~= want);
    let mut r = owned("[");
    let body = join(&parts, ",");
    push_str(&mut r, body.as_str());
    push_str(&mut r, "]");
    r
}

impl StatusNotifierItemProperties {
    /// The block of the item: where it is and its properties as fields, with
    /// its largest icon (its size, and the icon as a JSON array of its width,
    /// its height and its ARGB bytes), and its tooltip, title or id as the text.
    pub fn to_block(&self) -> (r: Block)
        requires
            self.icon_pixmap matches Some(v) ==> areas_fit(v@),
        ensures
            r.name matches Some(n) && n@ == "sni"@,
            opt_chars_eq(r.instance, self.id),
            r.full_text@ == item_text(*self),
            fields_view(r.other@) == item_fields(*self),
    {
        let mut other: Vec<(String, I3Value)> = Vec::new();
        let visible = if self.visible {
            owned("1")
        } else {
            owned("")
        };
        other.push((owned("visible"), I3Value::Str(visible)));
        let mut dbus = self.dbus_destination.clone();
        push_str(&mut dbus, ":");
        push_str(&mut dbus, self.dbus_path.as_str());
        other.push((owned("dbus"), I3Value::Str(dbus)));
        let ghost head = fields_view(other@);
        assert(head =~= seq![
            ("visible"@, I3ValueView::Str(if self.visible { "1"@ } else { ""@ })),
            ("dbus"@, I3ValueView::Str(self.dbus_destination@ + ":"@ + self.dbus_path@)),
        ]);
        push_opt(&mut other, "category", &self.category);
        push_opt(&mut other, "title", &self.title);
        push_opt(&mut other, "status", &self.status);
        push_opt(&mut other, "icon_name", &self.icon_name);
        push_opt(&mut other, "icon_theme_path", &self.icon_theme_path);
        let ghost texts = fields_view(other@);
        match self.window_id {
            Some(w) => other.push((owned("window_id"), I3Value::Json(i32_to_string(w)))),
            None => {},
        }
        let ghost with_window = fields_view(other@);
        assert(with_window =~= texts + match self.window_id {
            Some(w) => seq![("window_id"@, I3ValueView::Json(signed_decimal(w as int)))],
            None => Seq::empty(),
        });
        match &self.icon_pixmap {
            Some(v) => {
                if v.len() > 0 {
                    let k = largest(v);
                    let p = &v[k];
                    other.push((owned("pixmap_width"), I3Value::Json(i32_to_string(p.width))));
                    other.push((owned("pixmap_height"), I3Value::Json(i32_to_string(p.height))));
                    other.push((owned("pixmap"), I3Value::Json(pixmap_to_json(p))));
                }
            },
            None => {},
        }
        let ghost with_pixmap = fields_view(other@);
        assert(with_pixmap =~= with_window + pixmap_fields(self.icon_pixmap));
        let tooltip = match &self.tool_tip {
            Some(t) => t.display_text(),
            None => None,
        };
        match &tooltip {
            Some(t) => other.push((owned("tooltip"), I3Value::Str(t.clone()))),
            None => {},
        }
        assert(fields_view(other@) =~= with_pixmap + match tooltip_text(self.tool_tip) {
            Some(t) => seq![("tooltip"@, I3ValueView::Str(t))],
            None => Seq::empty(),
        });
        let full_text = match tooltip {
            Some(t) => t,
            None => match &self.title {
                Some(t) => t.clone(),
                None => match &self.id {
                    Some(i) => i.clone(),
                    None => String::new(),
                },
            },
        };
        Block { full_text, name: Some(owned("sni")), instance: crate::text::clone_opt_string(&self.id), other }
    }

    /// Marks the item as gone from the bus: hidden, and without its icons,
    /// which would only clutter the output.
    pub fn mark_gone(&mut self)
        ensures
            final(self).visible == false,
            final(self).icon_pixmap is None,
            final(self).tool_tip == match old(self).tool_tip {
                Some(t) => Some(Tooltip { icon_pixmaps: final(self).tool_tip->0.icon_pixmaps, ..t }),
                None => None,
            },
            final(self).tool_tip matches Some(t) ==> t.icon_pixmaps@.len() == 0,
            final(self).dbus_destination == old(self).dbus_destination,
            final(self).dbus_path == old(self).dbus_path,
            final(self).category == old(self).category,
            final(self).id == old(self).id,
            final(self).title == old(self).title,
            final(self).status == old(self).status,
            final(self).window_id == old(self).window_id,
            final(self).icon_name == old(self).icon_name,
            final(self).item_is_menu == old(self).item_is_menu,
            final(self).menu == old(self).menu,
            final(self).icon_theme_path == old(self).icon_theme_path,
    {
        self.visible = false;
        self.icon_pixmap = None;
        match &mut self.tool_tip {
            Some(t) => {
                t.icon_pixmaps.clear();
            },
            None => {},
        }
    }
}

/// Two optional strings hold the same characters.
pub open spec fn opt_chars_eq(a: Option<String>, b: Option<String>) -> bool {
    match (a, b) {
        (Some(x), Some(y)) => x@ == y@,
        (None, None) => true,
        _ => false,
    }
}

/// Where an item registered as `service` is found: a path alone names an
/// object of the sender, anything else a bus name at the default path.
pub open spec fn spec_item_address(service: Seq<char>, sender: Option<Seq<char>>) -> (Seq<char>, Seq<char>) {
    if service.len() > 0 && service[0] == '/' {
        match sender {
            Some(s) => (s, service),
            None => (service, default_item_path()),
        }
    } else {
        (service, default_item_path())
    }
}

/// The bus name and the object path of an item that registers as `service`,
/// sent by `sender` when the message names one.
pub fn item_address(service: &str, sender: Option<&str>) -> (r: (String, String))
    ensures
        (r.0@, r.1@) == spec_item_address(
            service@,
            match sender {
                Some(s) => Some(s@),
                None => None,
            },
        ),
{
    let v = chars_of(service);
    if v.len() > 0 && v[0] == '/' {
        match sender {
            Some(s) => (owned(s), owned(service)),
            None => (owned(service), owned("/StatusNotifierItem")),
        }
    } else {
        (owned(service), owned("/StatusNotifierItem"))
    }
}

/// An item's address written as `bus name:path`, split at its last colon;
/// without a colon it is a bus name at the default path.
pub open spec fn spec_split_dbus_address(s: Seq<char>) -> (Seq<char>, Seq<char>) {
    match rfind_char(s, ':') {
        Some(i) => (s.take(i), s.skip(i + 1)),
        None => (s, default_item_path()),
    }
}

/// The bus name and the object path of an address in the form of the
/// `dbus` field.
pub fn split_dbus_address(address: &str) -> (r: (String, String))
    ensures
        (r.0@, r.1@) == spec_split_dbus_address(address@),
{
    let v = chars_of(address);
    assert(v@.subrange(0, v@.len() as int) =~= v@);
    proof {
        crate::text::lemma_rfind_char(v@, ':');
    }
    match rfind_char_in(&v, 0, v.len(), ':') {
        Some(i) => {
            let dest = string_of(&v, 0, i);
            let path = string_of(&v, i + 1, v.len());
            assert(v@.subrange(0, i as int) =~= v@.take(i as int));
            assert(v@.subrange(i + 1, v@.len() as int) =~= v@.skip(i + 1));
            (dest, path)
        },
        None => (owned(address), owned("/StatusNotifierItem")),
    }
}

/// The `dbus` field of an item's block names the item again: split at its
/// last colon it gives back the bus name and the object path, as an object
/// path holds no colon.
pub proof fn lemma_dbus_field_round_trip(dest: Seq<char>, path: Seq<char>)
    requires
        forall|i: int| 0 <= i < path.len() ==> path[i] != ':',
    ensures
        spec_split_dbus_address(dest + ":"@ + path) == (dest, path),
{
    reveal_strlit(":");
    let s = dest + ":"@ + path;
    let k = dest.len() as int;
    assert(s[k] == ':');
    crate::text::lemma_rfind_char(s, ':');
    match rfind_char(s, ':') {
        Some(i) => {
            if i < k {
                assert(s[k] != ':');
            }
            if i > k {
                assert(s[i] == path[i - k - 1]);
            }
            assert(i == k);
            assert(s.take(k) =~= dest);
            assert(s.skip(k + 1) =~= path);
        },
        None => {
            assert(s[k] != ':');
        },
    }
}

/// A mouse button that clicked an item.
#[derive(PartialEq, Eq, Structural, Clone, Copy, Debug)]
pub enum MouseButton {
    Left,
    Middle,
    Right,
}

/// What a click on an item asks of it.
#[derive(PartialEq, Eq, Structural, Clone, Copy, Debug)]
pub enum Activation {
    /// The item's own action.
    Activate,
    /// Its secondary action.
    SecondaryActivate,
    /// Its menu.
    ContextMenu,
}

/// What a click does: the middle button asks for the secondary action; on an
/// item that is only a menu any other button opens the menu; on another item
/// the left button activates it and the right one opens its menu.
pub fn activation(is_menu: bool, button: MouseButton) -> (r: Activation)
    ensures
        r == match (is_menu, button) {
            (_, MouseButton::Middle) => Activation::SecondaryActivate,
            (false, MouseButton::Left) => Activation::Activate,
            (false, MouseButton::Right) => Activation::ContextMenu,
            (true, _) => Activation::ContextMenu,
        },
{
    match (is_menu, button) {
        (_, MouseButton::Middle) => Activation::SecondaryActivate,
        (false, MouseButton::Left) => Activation::Activate,
        (false, MouseButton::Right) => Activation::ContextMenu,
        (true, _) => Activation::ContextMenu,
    }
}

/// The length of the leading run of characters that are not whitespace.
pub open spec fn word_len(t: Seq<char>) -> nat
    decreases t.len(),
{
    if t.len() == 0 || is_ws(t[0]) {
        0
    } else {
        1 + word_len(t.drop_first())
    }
}

/// The first word of a text (`split_whitespace().next()`).
pub open spec fn first_word(s: Seq<char>) -> Option<Seq<char>> {
    let t = trim_start_spec(s);
    if t.len() == 0 {
        None
    } else {
        Some(t.take(word_len(t) as int))
    }
}

/// The entry chosen from a menu: the first word of what the chooser
/// printed, read as an entry id.
pub open spec fn spec_selection(s: Seq<char>) -> Option<i32> {
    match first_word(s) {
        Some(w) => spec_parse_i32(w),
        None => None,
    }
}

/// The id of the menu entry chosen, from what the chooser printed.
pub fn parse_selection(output: &str) -> (r: Option<i32>)
    ensures
        r == spec_selection(output@),
{
    let v = chars_of(output);
    let n = v.len();
    assert(v@.subrange(0, n as int) =~= v@);
    let start = skip_start(&v, 0, n);
    if start == n {
        return None;
    }
    let ghost t = v@.subrange(start as int, n as int);
    let mut j = start;
    while j < n && !is_whitespace(v[j])
        invariant
            start <= j <= n == v@.len(),
            t == v@.subrange(start as int, n as int),
            word_len(t) == (j - start) + word_len(v@.subrange(j as int, n as int)),
        decreases n - j,
    {
        assert(v@.subrange(j as int, n as int).drop_first() =~= v@.subrange(j + 1, n as int));
        j += 1;
    }
    assert(word_len(v@.subrange(j as int, n as int)) == 0);
    assert(t.take(word_len(t) as int) =~= v@.subrange(start as int, j as int));
    parse_i32_range(&v, start, j)
}

/// Why no menu entry could be clicked.
#[derive(Debug, PartialEq, Eq, Clone)]
pub enum ClickError {
    /// Neither an id nor a pattern was given.
    MissingTarget,
    /// The pattern is not a valid regular expression.
    InvalidRegex,
    /// No entry's label matches the pattern.
    NoMatch,
    /// This many entries' labels match the pattern.
    Multiple(usize),
}

/// The ids of the entries whose labels match `pattern`, in order.
pub open spec fn matching_ids(items: Seq<(i32, String)>, pattern: Seq<char>) -> Seq<i32>
    decreases items.len(),
{
    if items.len() == 0 {
        Seq::empty()
    } else {
        let rest = matching_ids(items.drop_last(), pattern);
        if regex_is_match(pattern, items.last().1@) {
            rest.push(items.last().0)
        } else {
            rest
        }
    }
}

/// The entry a click names: the id given, else the one entry whose label
/// matches the pattern.
pub open spec fn spec_pick_item(id: Option<i32>, pattern: Option<Seq<char>>, items: Seq<(i32, String)>) -> Result<i32, ClickError> {
    match id {
        Some(i) => Ok(i),
        None => match pattern {
            None => Err(ClickError::MissingTarget),
            Some(p) => if !regex_compiles(p) {
                Err(ClickError::InvalidRegex)
            } else {
                let m = matching_ids(items, p);
                if m.len() == 0 {
                    Err(ClickError::NoMatch)
                } else if m.len() > 1 {
                    Err(ClickError::Multiple(m.len() as usize))
                } else {
                    Ok(m[0])
                }
            },
        },
    }
}

/// The menu entry to click: the id given, else the only entry (of the
/// labelled ones, `items`) whose label matches `regex`.
pub fn pick_menu_item(id: Option<i32>, regex: &Option<String>, items: &Vec<(i32, String)>) -> (r: Result<i32, ClickError>)
    ensures
        r == spec_pick_item(
            id,
            match regex {
                Some(p) => Some(p@),
                None => None,
            },
            items@,
        ),
{
    match id {
        Some(i) => Ok(i),
        None => match regex {
            None => Err(ClickError::MissingTarget),
            Some(p) => match RegexPattern::new(p.as_str()) {
                Err(_) => Err(ClickError::InvalidRegex),
                Ok(re) => {
                    let mut ids: Vec<i32> = Vec::new();
                    let mut i: usize = 0;
                    while i < items.len()
                        invariant
                            i <= items@.len(),
                            re.pattern() == p@,
                            ids@ == matching_ids(items@.take(i as int), p@),
                        decreases items@.len() - i,
                    {
                        assert(items@.take(i + 1).drop_last() =~= items@.take(i as int));
                        assert(items@.take(i + 1).last() == items@[i as int]);
                        if re.is_match(items[i].1.as_str()) {
                            ids.push(items[i].0);
                        }
                        i += 1;
                    }
                    assert(items@.take(i as int) =~= items@);
                    if ids.len() == 0 {
                        Err(ClickError::NoMatch)
                    } else if ids.len() > 1 {
                        Err(ClickError::Multiple(ids.len()))
                    } else {
                        Ok(ids[0])
                    }
                },
            },
        },
    }
}

/// The properties of a menu entry as the menu publishes them: `None` where
/// one is absent or, for a text or a number, of another type. For `visible`
/// and `enabled`, `Some(None)` stands for a value of another type.
#[derive(Debug)]
pub struct MenuProps {
    pub visible: Option<Option<bool>>,
    pub enabled: Option<Option<bool>>,
    pub item_type: Option<String>,
    pub label: Option<String>,
    pub toggle_type: Option<String>,
    pub toggle_state: Option<i32>,
    pub children_display: Option<String>,
}

/// A menu entry, its properties read with their defaults.
#[derive(Debug)]
pub struct DBusMenuNode {
    pub visible: bool,
    pub enabled: bool,
    pub item_type: String,
    pub label: String,
    pub toggle_type: String,
    pub toggle_state: i32,
    pub children_display: String,
}

/// A label without its mnemonic marks: a double underscore stands for an
/// underscore, a single one is dropped (`__` to NUL, `_` removed, NUL to `_`;
/// a NUL of the label itself becomes `_` too).
pub open spec fn spec_mnemonic(s: Seq<char>) -> Seq<char>
    decreases s.len(),
{
    if s.len() == 0 {
        Seq::empty()
    } else if s[0] == '_' && s.len() >= 2 && s[1] == '_' {
        seq!['_'] + spec_mnemonic(s.skip(2))
    } else if s[0] == '_' {
        spec_mnemonic(s.skip(1))
    } else if s[0] == '\0' {
        seq!['_'] + spec_mnemonic(s.skip(1))
    } else {
        seq![s[0]] + spec_mnemonic(s.skip(1))
    }
}

/// Whether an entry is shown: yes when the property is absent, no when it
/// is not a boolean.
pub open spec fn node_visible(p: MenuProps) -> bool {
    match p.visible {
        None => true,
        Some(None) => false,
        Some(Some(b)) => b,
    }
}

/// Whether an entry can be chosen: yes unless it says it cannot.
pub open spec fn node_enabled(p: MenuProps) -> bool {
    match p.enabled {
        Some(Some(b)) => b,
        _ => true,
    }
}

/// The characters of an optional text, or nothing.
pub open spec fn text_or_empty(o: Option<String>) -> Seq<char> {
    match o {
        Some(t) => t@,
        None => Seq::empty(),
    }
}

/// The type of an entry, `standard` by default.
pub open spec fn node_type(p: MenuProps) -> Seq<char> {
    match p.item_type {
        Some(t) => t@,
        None => "standard"@,
    }
}

/// The label of an entry without its mnemonic marks.
pub open spec fn node_label(p: MenuProps) -> Seq<char> {
    spec_mnemonic(text_or_empty(p.label))
}

/// The toggle state of an entry, `-1` by default.
pub open spec fn node_toggle_state(p: MenuProps) -> i32 {
    match p.toggle_state {
        Some(s) => s,
        None => -1i32,
    }
}

fn mnemonic(label: &str) -> (r: String)
    ensures
        r@ == spec_mnemonic(label@),
{
    let v = chars_of(label);
    let mut out = String::new();
    let mut i: usize = 0;
    assert(v@.skip(0) =~= v@);
    while i < v.len()
        invariant
            i <= v@.len(),
            v@ == label@,
            spec_mnemonic(v@) == out@ + spec_mnemonic(v@.skip(i as int)),
        decreases v@.len() - i,
    {
        let ghost rest = v@.skip(i as int);
        assert(rest[0] == v@[i as int]);
        if v[i] == '_' && i + 1 < v.len() && v[i + 1] == '_' {
            assert(rest[1] == v@[i + 1]);
            assert(rest.skip(2) =~= v@.skip(i + 2));
            push_char(&mut out, '_');
            i += 2;
        } else if v[i] == '_' {
            assert(rest.skip(1) =~= v@.skip(i + 1));
            i += 1;
        } else if v[i] == '\0' {
            assert(rest.skip(1) =~= v@.skip(i + 1));
            push_char(&mut out, '_');
            i += 1;
        } else {
            assert(rest.skip(1) =~= v@.skip(i + 1));
            push_char(&mut out, v[i]);
            i += 1;
        }
    }
    assert(v@.skip(i as int) =~= Seq::<char>::empty());
    out
}

fn text_or_default(o: &Option<String>, default: &str) -> (r: String)
    ensures
        r@ == match *o {
            Some(t) => t@,
            None => default@,
        },
{
    match o {
        Some(t) => t.clone(),
        None => owned(default),
    }
}

impl DBusMenuNode {
    /// The entry that the properties describe, each absent property at its
    /// default.
    pub fn new(props: &MenuProps) -> (r: Self)
        ensures
            r.visible == node_visible(*props),
            r.enabled == node_enabled(*props),
            r.item_type@ == node_type(*props),
            r.label@ == node_label(*props),
            r.toggle_type@ == text_or_empty(props.toggle_type),
            r.toggle_state == node_toggle_state(*props),
            r.children_display@ == text_or_empty(props.children_display),
    {
        let visible = match props.visible {
            None => true,
            Some(None) => false,
            Some(Some(b)) => b,
        };
        let enabled = match props.enabled {
            Some(Some(b)) => b,
            _ => true,
        };
        let raw_label = text_or_default(&props.label, "");
        let toggle_state = match props.toggle_state {
            Some(s) => s,
            None => -1,
        };
        proof {
            reveal_strlit("");
        }
        DBusMenuNode {
            visible,
            enabled,
            item_type: text_or_default(&props.item_type, "standard"),
            label: mnemonic(raw_label.as_str()),
            toggle_type: text_or_default(&props.toggle_type, ""),
            toggle_state,
            children_display: text_or_default(&props.children_display, ""),
        }
    }
}

/// A menu: an entry with its id, its properties and the entries under it.
#[derive(Debug)]
pub struct MenuLayout {
    pub id: i32,
    pub props: MenuProps,
    pub children: Vec<MenuLayout>,
}

/// Whether an entry separates groups of entries.
pub open spec fn is_separator(p: MenuProps) -> bool {
    node_type(p) == "separator"@
}

/// The mark of a toggle's state: off, on, or neither.
pub open spec fn toggle_mark(state: i32) -> Seq<char> {
    if state == 0 {
        " "@
    } else if state == 1 {
        "X"@
    } else {
        "~"@
    }
}

/// What comes before the label of a check box or a radio button.
pub open spec fn toggle_prefix(p: MenuProps) -> Seq<char> {
    let t = text_or_empty(p.toggle_type);
    if t == "checkmark"@ {
        "["@ + toggle_mark(node_toggle_state(p)) + "] "@
    } else if t == "radio"@ {
        "("@ + toggle_mark(node_toggle_state(p)) + ") "@
    } else {
        Seq::empty()
    }
}

/// How an entry reads in the menu: `---` for a separator, else its toggle,
/// its label, and `:` when it opens a submenu.
pub open spec fn entry_label(p: MenuProps) -> Seq<char> {
    if is_separator(p) {
        "---"@
    } else {
        toggle_prefix(p) + node_label(p) + if text_or_empty(p.children_display) == "submenu"@ {
            ":"@
        } else {
            Seq::empty()
        }
    }
}

/// `s` left-aligned in `width` characters (`{:<width}`): spaces after it
/// when it is shorter.
pub open spec fn left_aligned(s: Seq<char>, width: nat) -> Seq<char> {
    if s.len() < width {
        s + repeat(' ', (width - s.len()) as nat)
    } else {
        s
    }
}

/// The line of an entry: its id in four columns, the indent of its depth,
/// and how it reads.
pub open spec fn entry_line(id: i32, indent: Seq<char>, p: MenuProps) -> Seq<char> {
    left_aligned(signed_decimal(id as int), 4) + indent + entry_label(p)
}

/// The lines of a menu and of the entries under it, each level indented two
/// spaces more; an entry that is hidden or disabled is left out with all
/// under it, one that is not a separator and has a blank label alone.
pub open spec fn layout_lines(indent: Seq<char>, l: MenuLayout) -> Seq<Seq<char>>
    decreases l, 1nat,
{
    if !node_visible(l.props) || !node_enabled(l.props) {
        Seq::empty()
    } else {
        (if !is_separator(l.props) && is_blank(node_label(l.props)) {
            Seq::empty()
        } else {
            seq![entry_line(l.id, indent, l.props)]
        }) + children_lines(indent + "  "@, l.children@)
    }
}

/// The lines of a list of menus, in order.
pub open spec fn children_lines(indent: Seq<char>, s: Seq<MenuLayout>) -> Seq<Seq<char>>
    decreases s, 0nat,
{
    if s.len() == 0 {
        Seq::empty()
    } else {
        children_lines(indent, s.drop_last()) + layout_lines(indent, s.last())
    }
}

fn toggle_text(node: &DBusMenuNode, props: &MenuProps) -> (r: String)
    requires
        node.toggle_type@ == text_or_empty(props.toggle_type),
        node.toggle_state == node_toggle_state(*props),
    ensures
        r@ == toggle_prefix(*props),
{
    let mark = if node.toggle_state == 0 {
        " "
    } else if node.toggle_state == 1 {
        "X"
    } else {
        "~"
    };
    if str_eq(node.toggle_type.as_str(), "checkmark") {
        let mut t = owned("[");
        push_str(&mut t, mark);
        push_str(&mut t, "] ");
        t
    } else if str_eq(node.toggle_type.as_str(), "radio") {
        let mut t = owned("(");
        push_str(&mut t, mark);
        push_str(&mut t, ") ");
        t
    } else {
        String::new()
    }
}

fn line_of(id: i32, indent: &str, node: &DBusMenuNode, props: &MenuProps) -> (r: String)
    requires
        node.item_type@ == node_type(*props),
        node.label@ == node_label(*props),
        node.toggle_type@ == text_or_empty(props.toggle_type),
        node.toggle_state == node_toggle_state(*props),
        node.children_display@ == text_or_empty(props.children_display),
    ensures
        r@ == entry_line(id, indent@, *props),
{
    let digits = i32_to_string(id);
    let mut line = digits.clone();
    let n = digits.as_str().unicode_len();
    if n < 4 {
        let mut i: usize = 0;
        while i < 4 - n
            invariant
                n < 4,
                i <= 4 - n,
                line@ == digits@ + repeat(' ', i as nat),
            decreases 4 - n - i,
        {
            push_char(&mut line, ' ');
            assert(repeat(' ', (i + 1) as nat) =~= repeat(' ', i as nat).push(' '));
            i += 1;
        }
    }
    assert(line@ == left_aligned(signed_decimal(id as int), 4));
    push_str(&mut line, indent);
    let ghost head = line@;
    if str_eq(node.item_type.as_str(), "separator") {
        push_str(&mut line, "---");
    } else {
        let toggle = toggle_text(node, props);
        push_str(&mut line, toggle.as_str());
        push_str(&mut line, node.label.as_str());
        if str_eq(node.children_display.as_str(), "submenu") {
            push_str(&mut line, ":");
        }
        assert(line@ =~= head + entry_label(*props));
    }
    line
}

fn push_layout_lines(out: &mut Vec<String>, indent: &str, l: &MenuLayout)
    ensures
        strings_view(final(out)@) == strings_view(old(out)@) + layout_lines(indent@, *l),
    decreases l,
{
    let ghost start = strings_view(out@);
    let node = DBusMenuNode::new(&l.props);
    if !node.visible || !node.enabled {
        assert(strings_view(out@) =~= start + layout_lines(indent@, *l));
        return;
    }
    let separator = str_eq(node.item_type.as_str(), "separator");
    if separator || !blank(node.label.as_str()) {
        let line = line_of(l.id, indent, &node, &l.props);
        out.push(line);
    }
    let ghost own = strings_view(out@);
    assert(own =~= start + if !is_separator(l.props) && is_blank(node_label(l.props)) {
        Seq::<Seq<char>>::empty()
    } else {
        seq![entry_line(l.id, indent@, l.props)]
    });
    let mut child_indent = owned(indent);
    push_str(&mut child_indent, "  ");
    let ghost kids = l.children@;
    let mut i: usize = 0;
    assert(kids.take(0) =~= Seq::<MenuLayout>::empty());
    assert(own + children_lines(child_indent@, kids.take(0)) =~= own);
    while i < l.children.len()
        invariant
            i <= kids.len(),
            kids == l.children@,
            strings_view(out@) == own + children_lines(child_indent@, kids.take(i as int)),
        decreases kids.len() - i,
    {
        assert(decreases_to!(l => l.children));
        assert(decreases_to!(l.children => l.children@));
        assert(decreases_to!(l.children@ => l.children@[i as int]));
        push_layout_lines(out, child_indent.as_str(), &l.children[i]);
        assert(kids.take(i + 1).drop_last() =~= kids.take(i as int));
        assert(kids.take(i + 1).last() == kids[i as int]);
        assert(strings_view(out@) =~= own + children_lines(child_indent@, kids.take(i + 1)));
        i += 1;
    }
    assert(kids.take(i as int) =~= kids);
    assert(strings_view(out@) =~= start + layout_lines(indent@, *l));
}

/// The entries that can be clicked by their label, in the order of the menu:
/// the shown, enabled entries that are not separators and have a label
/// that is not blank. Unlike the lines, the entries under a hidden or
/// disabled one are still looked at.
pub open spec fn layout_items(l: MenuLayout) -> Seq<(i32, Seq<char>)>
    decreases l, 1nat,
{
    (if node_visible(l.props) && node_enabled(l.props) && !is_separator(l.props) && !is_blank(
        node_label(l.props),
    ) {
        seq![(l.id, node_label(l.props))]
    } else {
        Seq::empty()
    }) + children_items(l.children@)
}

/// The clickable entries of a list of menus, in order.
pub open spec fn children_items(s: Seq<MenuLayout>) -> Seq<(i32, Seq<char>)>
    decreases s, 0nat,
{
    if s.len() == 0 {
        Seq::empty()
    } else {
        children_items(s.drop_last()) + layout_items(s.last())
    }
}

/// The ids and labels of a list of entries.
pub open spec fn items_view(v: Seq<(i32, String)>) -> Seq<(i32, Seq<char>)> {
    v.map_values(|p: (i32, String)| (p.0, p.1@))
}

fn push_items(out: &mut Vec<(i32, String)>, l: &MenuLayout)
    ensures
        items_view(final(out)@) == items_view(old(out)@) + layout_items(*l),
    decreases l,
{
    let ghost start = items_view(out@);
    let node = DBusMenuNode::new(&l.props);
    if node.visible && node.enabled && !str_eq(node.item_type.as_str(), "separator") && !blank(
        node.label.as_str(),
    ) {
        out.push((l.id, node.label));
    }
    let ghost own = items_view(out@);
    assert(own =~= start + if node_visible(l.props) && node_enabled(l.props) && !is_separator(l.props)
        && !is_blank(node_label(l.props)) {
        seq![(l.id, node_label(l.props))]
    } else {
        Seq::<(i32, Seq<char>)>::empty()
    });
    let ghost kids = l.children@;
    let mut i: usize = 0;
    assert(kids.take(0) =~= Seq::<MenuLayout>::empty());
    assert(own + children_items(kids.take(0)) =~= own);
    while i < l.children.len()
        invariant
            i <= kids.len(),
            kids == l.children@,
            items_view(out@) == own + children_items(kids.take(i as int)),
        decreases kids.len() - i,
    {
        assert(decreases_to!(l => l.children));
        assert(decreases_to!(l.children => l.children@));
        assert(decreases_to!(l.children@ => l.children@[i as int]));
        push_items(out, &l.children[i]);
        assert(kids.take(i + 1).drop_last() =~= kids.take(i as int));
        assert(kids.take(i + 1).last() == kids[i as int]);
        assert(items_view(out@) =~= own + children_items(kids.take(i + 1)));
        i += 1;
    }
    assert(kids.take(i as int) =~= kids);
    assert(items_view(out@) =~= start + layout_items(*l));
}

/// The entries of a menu that can be clicked by their label.
pub fn menu_items(layout: &MenuLayout) -> (r: Vec<(i32, String)>)
    ensures
        items_view(r@) == layout_items(*layout),
{
    let mut out: Vec<(i32, String)> = Vec::new();
    push_items(&mut out, layout);
    assert(items_view(out@) =~= layout_items(*layout));
    out
}

/// Whether a line is a separator's: it ends with `---`.
pub open spec fn is_separator_line(s: Seq<char>) -> bool {
    s.len() >= 3 && s[s.len() - 3] == '-' && s[s.len() - 2] == '-' && s[s.len() - 1] == '-'
}

/// The lines with each run of separator lines cut down to its first;
/// `last_sep` tells whether the line kept last was a separator's.
pub open spec fn dedup_from(s: Seq<Seq<char>>, last_sep: bool) -> Seq<Seq<char>>
    decreases s.len(),
{
    if s.len() == 0 {
        Seq::empty()
    } else if is_separator_line(s[0]) && last_sep {
        dedup_from(s.drop_first(), true)
    } else {
        seq![s[0]] + dedup_from(s.drop_first(), is_separator_line(s[0]))
    }
}

fn separator_line(s: &str) -> (r: bool)
    ensures
        r == is_separator_line(s@),
{
    let v = chars_of(s);
    let n = v.len();
    n >= 3 && v[n - 3] == '-' && v[n - 2] == '-' && v[n - 1] == '-'
}

/// The lines without a separator right after another.
pub fn dedup_separators(lines: Vec<String>) -> (r: Vec<String>)
    ensures
        strings_view(r@) == dedup_from(strings_view(lines@), false),
{
    let ghost all = strings_view(lines@);
    let mut out: Vec<String> = Vec::new();
    let mut last_was_separator = false;
    let mut i: usize = 0;
    assert(all.skip(0) =~= all);
    while i < lines.len()
        invariant
            i <= lines@.len(),
            all == strings_view(lines@),
            dedup_from(all, false) == strings_view(out@) + dedup_from(all.skip(i as int), last_was_separator),
        decreases lines@.len() - i,
    {
        let ghost rest = all.skip(i as int);
        assert(rest[0] == lines@[i as int]@);
        assert(rest.drop_first() =~= all.skip(i + 1));
        let is_separator = separator_line(lines[i].as_str());
        if !(is_separator && last_was_separator) {
            let ghost before = strings_view(out@);
            out.push(lines[i].clone());
            assert(strings_view(out@) =~= before.push(lines@[i as int]@));
            assert(before + (seq![rest[0]] + dedup_from(rest.drop_first(), is_separator)) =~= strings_view(out@)
                + dedup_from(rest.drop_first(), is_separator));
            last_was_separator = is_separator;
        }
        i += 1;
    }
    assert(all.skip(i as int) =~= Seq::<Seq<char>>::empty());
    assert(strings_view(out@) =~= dedup_from(all, false));
    out
}

/// A menu never shows a separator right after another: after the cut, no
/// two neighbouring lines are both separator lines, and after a separator
/// the first line kept is not one.
pub proof fn lemma_no_separator_after_separator(s: Seq<Seq<char>>, last_sep: bool)
    ensures
        forall|i: int|
            0 <= i < dedup_from(s, last_sep).len() - 1 ==> !(is_separator_line(
                #[trigger] dedup_from(s, last_sep)[i],
            ) && is_separator_line(dedup_from(s, last_sep)[i + 1])),
        last_sep && dedup_from(s, last_sep).len() > 0 ==> !is_separator_line(dedup_from(s, last_sep)[0]),
    decreases s.len(),
{
    if s.len() > 0 {
        let sep = is_separator_line(s[0]);
        if sep && last_sep {
            lemma_no_separator_after_separator(s.drop_first(), true);
        } else {
            lemma_no_separator_after_separator(s.drop_first(), sep);
            let rest = dedup_from(s.drop_first(), sep);
            let d = dedup_from(s, last_sep);
            assert(d == seq![s[0]] + rest);
            assert forall|i: int| 0 <= i < d.len() - 1 implies !(is_separator_line(#[trigger] d[i])
                && is_separator_line(d[i + 1])) by {
                if i > 0 {
                    assert(d[i] == rest[i - 1]);
                    assert(d[i + 1] == rest[i]);
                } else {
                    assert(d[1] == rest[0]);
                }
            }
        }
    }
}

/// The lines of an item's menu, as the chooser shows them: one per shown
/// entry, each with its id, indented by its depth, without a separator
/// right after another.
pub fn dump_sni_menu(layout: &MenuLayout) -> (r: Vec<String>)
    ensures
        strings_view(r@) == dedup_from(layout_lines(Seq::empty(), *layout), false),
{
    let mut out: Vec<String> = Vec::new();
    let indent = "";
    proof {
        reveal_strlit("");
    }
    push_layout_lines(&mut out, indent, layout);
    assert(strings_view(out@) =~= layout_lines(Seq::empty(), *layout));
    dedup_separators(out)
}

} // verus!
