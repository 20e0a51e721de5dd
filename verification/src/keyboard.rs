//! The keyboard helper: layouts and indicators as i3bar blocks.

use vstd::prelude::*;
use crate::decimal::{decimal, usize_to_string};
use crate::protocol::{Block, I3Value};
use crate::text::{
    ascii_lower, is_upper, is_ws, join, join_with, lemma_str_lt_asymmetric, lemma_str_lt_total, lemma_str_lt_transitive,
    owned, push_char, push_str, split_char, split_on, str_eq, str_less, str_lt, strings_view,
};

verus! {

/// The layouts of a keyboard, the active one, and its indicators.
#[derive(Debug)]
pub struct KeyboardState {
    pub current: usize,
    pub variants: Vec<String>,
    /// The indicators (caps lock and the like) and whether they are on, in
    /// the order of their names, each name once (see `wf`).
    pub indicators: Vec<(String, bool)>,
}

/// Indicators whose names are in order, each name once.
pub open spec fn indicators_in_order(s: Seq<(String, bool)>) -> bool {
    forall|i: int, j: int| 0 <= i < j < s.len() ==> str_lt(#[trigger] s[i].0@, #[trigger] s[j].0@)
}

/// In order, no indicator name occurs twice.
pub proof fn lemma_indicator_names_distinct(s: Seq<(String, bool)>, i: int, j: int)
    requires
        indicators_in_order(s),
        0 <= i < s.len(),
        0 <= j < s.len(),
        i != j,
    ensures
        s[i].0@ != s[j].0@,
{
    if i < j {
        lemma_str_lt_asymmetric(s[i].0@, s[j].0@);
    } else {
        lemma_str_lt_asymmetric(s[j].0@, s[i].0@);
    }
}

impl KeyboardState {
    /// The indicators are in the order of their names, each name once.
    pub open spec fn wf(&self) -> bool {
        indicators_in_order(self.indicators@)
    }

    /// Sets an indicator, keeping the names in order: at `k`, the first
    /// position whose name does not come before `name`, the indicator of
    /// that name gets the new state, or the new one goes in there.
    pub fn set_indicator(&mut self, name: String, on: bool)
        requires
            old(self).wf(),
        ensures
            final(self).wf(),
            final(self).current == old(self).current,
            final(self).variants@ == old(self).variants@,
            exists|k: int|
                0 <= k <= old(self).indicators@.len() && (forall|i: int|
                    0 <= i < k ==> str_lt(#[trigger] old(self).indicators@[i].0@, name@)) && (k == old(
                    self,
                ).indicators@.len() || !str_lt(old(self).indicators@[k].0@, name@)) && if k < old(
                    self,
                ).indicators@.len() && old(self).indicators@[k].0@ == name@ {
                    final(self).indicators@ == old(self).indicators@.update(k, (name, on))
                } else {
                    final(self).indicators@ == old(self).indicators@.insert(k, (name, on))
                },
    {
        let ghost o = self.indicators@;
        let ghost n = name@;
        let mut k: usize = 0;
        while k < self.indicators.len() && str_less(self.indicators[k].0.as_str(), name.as_str())
            invariant
                k <= o.len(),
                self.indicators@ == o,
                indicators_in_order(o),
                forall|i: int| 0 <= i < k ==> str_lt(#[trigger] o[i].0@, name@),
            decreases o.len() - k,
        {
            k += 1;
        }
        if k < self.indicators.len() && str_eq(self.indicators[k].0.as_str(), name.as_str()) {
            let ghost item = (name, on);
            self.indicators.set(k, (name, on));
            proof {
                let e = self.indicators@;
                assert(e == o.update(k as int, item));
                assert forall|i: int, j: int| 0 <= i < j < e.len() implies str_lt(#[trigger] e[i].0@, #[trigger] e[j].0@) by {
                    assert(o[i].0@ == e[i].0@ && o[j].0@ == e[j].0@);
                }
            }
        } else {
            proof {
                if k < o.len() {
                    lemma_str_lt_total(o[k as int].0@, n);
                }
            }
            let ghost item = (name, on);
            self.indicators.insert(k, (name, on));
            proof {
                let e = self.indicators@;
                assert(e == o.insert(k as int, item));
                assert forall|i: int, j: int| 0 <= i < j < e.len() implies str_lt(#[trigger] e[i].0@, #[trigger] e[j].0@) by {
                    if j < k {
                        assert(e[i] == o[i] && e[j] == o[j]);
                    } else if j == k {
                        assert(e[i] == o[i]);
                    } else if i == k {
                        assert(e[j] == o[j - 1]);
                        if j - 1 > k {
                            lemma_str_lt_transitive(n, o[k as int].0@, o[j - 1].0@);
                        }
                    } else if i < k {
                        assert(e[i] == o[i] && e[j] == o[j - 1]);
                        lemma_str_lt_transitive(o[i].0@, n, o[k as int].0@);
                        if j - 1 > k {
                            lemma_str_lt_transitive(o[i].0@, o[k as int].0@, o[j - 1].0@);
                        }
                    } else {
                        assert(e[i] == o[i - 1] && e[j] == o[j - 1]);
                    }
                }
            }
        }
    }
}

/// What a character of an indicator's name becomes: whitespace is dropped,
/// an uppercase letter becomes `_` (unless it comes first) and its ASCII
/// lowercase, any other character stays.
pub open spec fn indicator_piece(c: char, first: bool) -> Seq<char> {
    if is_ws(c) {
        Seq::<char>::empty()
    } else if is_upper(c) {
        if first {
            seq![ascii_lower(c)]
        } else {
            seq!['_', ascii_lower(c)]
        }
    } else {
        seq![c]
    }
}

/// The name of an indicator in snake case (see `indicator_piece`).
pub open spec fn indicator_name(s: Seq<char>) -> Seq<char>
    decreases s.len(),
{
    if s.len() == 0 {
        Seq::<char>::empty()
    } else {
        indicator_name(s.drop_last()) + indicator_piece(s.last(), s.len() == 1)
    }
}

/// The name of an indicator as a variable name: `Caps Lock` becomes `caps_lock`.
pub fn to_indicator_name(s: &str) -> (r: String)
    ensures
        r@ == indicator_name(s@),
{
    let v = crate::text::chars_of(s);
    let mut result = String::new();
    let mut i: usize = 0;
    assert(v@.take(0) =~= Seq::<char>::empty());
    while i < v.len()
        invariant
            i <= v@.len(),
            v@ == s@,
            result@ == indicator_name(v@.take(i as int)),
        decreases v@.len() - i,
    {
        assert(v@.take(i + 1).drop_last() == v@.take(i as int));
        assert(v@.take(i + 1).last() == v@[i as int]);
        let ch = v[i];
        if crate::text::is_whitespace(ch) {
        } else if crate::text::is_uppercase(ch) {
            if i > 0 {
                push_char(&mut result, '_');
            }
            push_char(&mut result, crate::text::to_ascii_lowercase(ch));
        } else {
            push_char(&mut result, ch);
        }
        assert(result@ =~= indicator_name(v@.take(i as int)) + indicator_piece(v@[i as int], i == 0));
        i += 1;
    }
    assert(v@.take(i as int) == v@);
    result
}

/// The active layout's name, `?` when the index is out of the list.
pub open spec fn active_layout(current: usize, variants: Seq<String>) -> Seq<char> {
    if current < variants.len() {
        variants[current as int]@
    } else {
        seq!['?']
    }
}

/// The state of an indicator as text: `on` or `off`.
pub open spec fn on_off(v: bool) -> Seq<char> {
    if v { seq!['o', 'n'] } else { seq!['o', 'f', 'f'] }
}

/// `b` is the block of the layout: `layout: <active>`, with `active`,
/// `value` and `variants` (joined by commas) as its other fields.
pub open spec fn is_layout_block(b: Block, current: usize, variants: Seq<String>) -> bool {
    let value = active_layout(current, variants);
    &&& b.name matches Some(n) && n@ == seq!['l', 'a', 'y', 'o', 'u', 't']
    &&& b.instance is None
    &&& b.full_text@ == seq!['l', 'a', 'y', 'o', 'u', 't', ':', ' '] + value
    &&& b.other@.len() == 3
    &&& b.other@[0].0@ == seq!['a', 'c', 't', 'i', 'v', 'e']
    &&& b.other@[0].1 matches I3Value::Json(x) && x@ == decimal(current as nat)
    &&& b.other@[1].0@ == seq!['v', 'a', 'l', 'u', 'e']
    &&& b.other@[1].1 matches I3Value::Str(x) && x@ == value
    &&& b.other@[2].0@ == seq!['v', 'a', 'r', 'i', 'a', 'n', 't', 's']
    &&& b.other@[2].1 matches I3Value::Str(x) && x@ == join_with(strings_view(variants), seq![','])
}

/// `b` is the block of an indicator: `<name>: on` or `<name>:off`, under
/// the instance of its name, with `value` as its other field.
pub open spec fn is_indicator_block(b: Block, name: Seq<char>, on: bool) -> bool {
    &&& b.name matches Some(n) && n@ == seq!['i', 'n', 'd', 'i', 'c', 'a', 't', 'o', 'r']
    &&& b.instance matches Some(i) && i@ == name
    &&& b.full_text@ == name + seq![':'] + (if on { seq![' ', 'o', 'n'] } else { seq!['o', 'f', 'f'] })
    &&& b.other@.len() == 1
    &&& b.other@[0].0@ == seq!['v', 'a', 'l', 'u', 'e']
    &&& b.other@[0].1 matches I3Value::Str(x) && x@ == on_off(on)
}

fn text_of(s: &str) -> (r: String)
    ensures
        r@ == s@,
{
    owned(s)
}

/// The layout block, then one block for each indicator, in order.
pub fn state_to_blocks(state: KeyboardState) -> (r: Vec<Block>)
    ensures
        r@.len() == state.indicators@.len() + 1,
        is_layout_block(r@[0], state.current, state.variants@),
        forall|i: int| 0 <= i < state.indicators@.len() ==> is_indicator_block(
            #[trigger] r@[i + 1],
            state.indicators@[i].0@,
            state.indicators@[i].1,
        ),
{
    let value = if state.current < state.variants.len() {
        state.variants[state.current].clone()
    } else {
        let q = "?";
        proof {
            reveal_strlit("?");
            assert(q@ =~= seq!['?']);
        }
        owned(q)
    };
    let active = "active";
    let value_name = "value";
    let variants_name = "variants";
    let comma = ",";
    let layout = "layout";
    let layout_prefix = "layout: ";
    let indicator = "indicator";
    let on = "on";
    let off = "off";
    let on_padded = " on";
    proof {
        reveal_strlit("active");
        reveal_strlit("value");
        reveal_strlit("variants");
        reveal_strlit(",");
        reveal_strlit("layout");
        reveal_strlit("layout: ");
        reveal_strlit("indicator");
        reveal_strlit("on");
        reveal_strlit("off");
        reveal_strlit(" on");
        assert(active@ =~= seq!['a', 'c', 't', 'i', 'v', 'e']);
        assert(value_name@ =~= seq!['v', 'a', 'l', 'u', 'e']);
        assert(variants_name@ =~= seq!['v', 'a', 'r', 'i', 'a', 'n', 't', 's']);
        assert(comma@ =~= seq![',']);
        assert(layout@ =~= seq!['l', 'a', 'y', 'o', 'u', 't']);
        assert(layout_prefix@ =~= seq!['l', 'a', 'y', 'o', 'u', 't', ':', ' ']);
        assert(indicator@ =~= seq!['i', 'n', 'd', 'i', 'c', 'a', 't', 'o', 'r']);
        assert(on@ =~= seq!['o', 'n']);
        assert(off@ =~= seq!['o', 'f', 'f']);
        assert(on_padded@ =~= seq![' ', 'o', 'n']);
    }
    let mut other: Vec<(String, I3Value)> = Vec::new();
    other.push((text_of(active), I3Value::Json(usize_to_string(state.current))));
    other.push((text_of(value_name), I3Value::Str(value.clone())));
    other.push((text_of(variants_name), I3Value::Str(join(&state.variants, comma))));
    let mut full_text = text_of(layout_prefix);
    push_str(&mut full_text, value.as_str());
    let mut result: Vec<Block> = Vec::new();
    result.push(Block { full_text, name: Some(text_of(layout)), instance: None, other });
    let mut i: usize = 0;
    while i < state.indicators.len()
        invariant
            i <= state.indicators@.len(),
            result@.len() == i + 1,
            is_layout_block(result@[0], state.current, state.variants@),
            value_name@ =~= seq!['v', 'a', 'l', 'u', 'e'],
            indicator@ =~= seq!['i', 'n', 'd', 'i', 'c', 'a', 't', 'o', 'r'],
            on@ =~= seq!['o', 'n'],
            off@ =~= seq!['o', 'f', 'f'],
            on_padded@ =~= seq![' ', 'o', 'n'],
            forall|j: int| 0 <= j < i ==> is_indicator_block(#[trigger] result@[j + 1], state.indicators@[j].0@, state.indicators@[j].1),
        decreases state.indicators@.len() - i,
    {
        let k = &state.indicators[i].0;
        let v = state.indicators[i].1;
        let mut full_text = k.clone();
        push_char(&mut full_text, ':');
        push_str(&mut full_text, if v { on_padded } else { off });
        let mut other: Vec<(String, I3Value)> = Vec::new();
        other.push((text_of(value_name), I3Value::Str(text_of(if v { on } else { off }))));
        let ghost before = result@;
        result.push(Block { full_text, name: Some(text_of(indicator)), instance: Some(k.clone()), other });
        proof {
            let b = result@[i + 1];
            let nm = state.indicators@[i as int].0@;
            assert(b.full_text@ =~= nm + seq![':'] + (if v { seq![' ', 'o', 'n'] } else { seq!['o', 'f', 'f'] }));
            assert(b.other@[0].1 matches I3Value::Str(x) && x@ == on_off(v));
            assert(is_indicator_block(result@[i + 1], state.indicators@[i as int].0@, state.indicators@[i as int].1));
            assert forall|j: int| 0 <= j < i + 1 implies is_indicator_block(#[trigger] result@[j + 1], state.indicators@[j].0@, state.indicators@[j].1) by {
                if j < i {
                    assert(result@[j + 1] == before[j + 1]);
                }
            }
        }
        i += 1;
    }
    result
}

/// The state of a Hyprland keyboard: its comma-separated layouts, the
/// active one, and no indicators (Hyprland does not report them).
pub fn hyprland_state(layout: &str, active_layout_index: usize) -> (r: KeyboardState)
    ensures
        r.current == active_layout_index,
        strings_view(r.variants@) == split_char(layout@, ','),
        r.indicators@.len() == 0,
        r.wf(),
{
    KeyboardState { current: active_layout_index, variants: split_on(layout, ','), indicators: Vec::new() }
}

/// A symbol of an XKB symbols name up to its `:` (the group it goes to).
pub open spec fn symbol_name(p: Seq<char>) -> Seq<char> {
    match crate::text::find_char(p, ':') {
        Some(i) => p.take(i),
        None => p,
    }
}

/// The layouts among the symbols: those that are not options (written with
/// parentheses), without their group, and not the `pc` base.
pub open spec fn layouts_among(pieces: Seq<Seq<char>>) -> Seq<Seq<char>>
    decreases pieces.len(),
{
    if pieces.len() == 0 {
        Seq::empty()
    } else {
        let rest = layouts_among(pieces.drop_last());
        let p = pieces.last();
        if crate::text::find_char(p, '(') is Some || symbol_name(p) == "pc"@ {
            rest
        } else {
            rest.push(symbol_name(p))
        }
    }
}

fn symbol_layout(piece: &str) -> (r: (bool, String))
    ensures
        r.0 == !(crate::text::find_char(piece@, '(') is Some || symbol_name(piece@) == "pc"@),
        r.1@ == symbol_name(piece@),
{
    let v = crate::text::chars_of(piece);
    assert(v@.subrange(0, v@.len() as int) =~= v@);
    let option = crate::text::find_char_in(&v, 0, v.len(), '(').is_some();
    proof {
        crate::text::lemma_find_char(v@, ':');
    }
    let name = match crate::text::find_char_in(&v, 0, v.len(), ':') {
        Some(i) => {
            let n = crate::text::string_of(&v, 0, i);
            assert(v@.subrange(0, i as int) =~= v@.take(i as int));
            n
        },
        None => owned(piece),
    };
    let is_pc = crate::text::str_eq(name.as_str(), "pc");
    (!(option || is_pc), name)
}

/// The layouts of an XKB symbols name such as `pc+us+ru:2+inet(evdev)`:
/// its `+`-separated symbols that are layouts (see `layouts_among`).
pub fn layout_variants(symbols: &str) -> (r: Vec<String>)
    ensures
        strings_view(r@) == layouts_among(split_char(symbols@, '+')),
{
    let pieces = split_on(symbols, '+');
    let ghost ps = strings_view(pieces@);
    let mut r: Vec<String> = Vec::new();
    let mut i: usize = 0;
    while i < pieces.len()
        invariant
            i <= pieces@.len(),
            ps == strings_view(pieces@),
            strings_view(r@) == layouts_among(ps.take(i as int)),
        decreases pieces@.len() - i,
    {
        assert(ps.take(i + 1).drop_last() =~= ps.take(i as int));
        assert(ps.take(i + 1).last() == pieces@[i as int]@);
        let (keep, name) = symbol_layout(pieces[i].as_str());
        let ghost before = strings_view(r@);
        if keep {
            r.push(name);
            assert(strings_view(r@) =~= before.push(symbol_name(pieces@[i as int]@)));
        }
        i += 1;
    }
    assert(ps.take(i as int) =~= ps);
    r
}

/// The XKB group a layout index locks: the first four by their index, any
/// later one the fourth.
pub fn layout_group(layout: usize) -> (r: u8)
    ensures
        r == if layout < 3 {
            layout
        } else {
            3
        },
{
    if layout < 3 {
        layout as u8
    } else {
        3
    }
}

/// An input device as Sway reports it.
#[derive(Debug)]
pub struct SwayInput {
    pub identifier: String,
    pub input_type: String,
    pub xkb_layout_names: Vec<String>,
    pub xkb_active_layout_index: Option<usize>,
}

/// Whether a Sway input is a keyboard.
pub open spec fn is_keyboard(i: SwayInput) -> bool {
    i.input_type@ == "keyboard"@
}

/// The first keyboard with layouts.
pub open spec fn first_layout_keyboard(inputs: Seq<SwayInput>) -> Option<int>
    decreases inputs.len(),
{
    if inputs.len() == 0 {
        None
    } else if is_keyboard(inputs[0]) && inputs[0].xkb_layout_names@.len() > 0 {
        Some(0)
    } else {
        match first_layout_keyboard(inputs.drop_first()) {
            Some(i) => Some(i + 1),
            None => None,
        }
    }
}

/// The state of the first Sway keyboard that has layouts: its layouts and
/// the active one (the first when Sway names none); no indicators, which
/// Sway does not report. None without such a keyboard.
pub fn sway_keyboard_state(inputs: &Vec<SwayInput>) -> (r: Option<KeyboardState>)
    ensures
        match first_layout_keyboard(inputs@) {
            Some(k) => r matches Some(st) && {
                let input = inputs@[k];
                &&& st.current == match input.xkb_active_layout_index {
                    Some(i) => i,
                    None => 0,
                }
                &&& st.variants@ == input.xkb_layout_names@
                &&& st.indicators@.len() == 0
                &&& st.wf()
            },
            None => r is None,
        },
{
    let mut i: usize = 0;
    assert(inputs@.skip(0) =~= inputs@);
    while i < inputs.len()
        invariant
            i <= inputs@.len(),
            first_layout_keyboard(inputs@) == match first_layout_keyboard(inputs@.skip(i as int)) {
                Some(k) => Some(k + i),
                None => None::<int>,
            },
        decreases inputs@.len() - i,
    {
        assert(inputs@.skip(i as int)[0] == inputs@[i as int]);
        assert(inputs@.skip(i as int).drop_first() =~= inputs@.skip(i + 1));
        let input = &inputs[i];
        if crate::text::str_eq(input.input_type.as_str(), "keyboard") && input.xkb_layout_names.len() > 0 {
            let current = match input.xkb_active_layout_index {
                Some(c) => c,
                None => 0,
            };
            let variants = crate::text::clone_strings(&input.xkb_layout_names);
            return Some(KeyboardState { current, variants, indicators: Vec::new() });
        }
        i += 1;
    }
    assert(inputs@.skip(i as int).len() == 0);
    None
}

/// The Sway commands that switch every keyboard to a layout.
pub open spec fn switch_commands(inputs: Seq<SwayInput>, layout: usize) -> Seq<Seq<char>>
    decreases inputs.len(),
{
    if inputs.len() == 0 {
        Seq::empty()
    } else {
        let rest = switch_commands(inputs.drop_last(), layout);
        if is_keyboard(inputs.last()) {
            rest.push("input "@ + inputs.last().identifier@ + " xkb_switch_layout "@ + decimal(layout as nat))
        } else {
            rest
        }
    }
}

/// The commands that switch every Sway keyboard to the layout of the index.
pub fn sway_layout_commands(inputs: &Vec<SwayInput>, layout: usize) -> (r: Vec<String>)
    ensures
        strings_view(r@) == switch_commands(inputs@, layout),
{
    let mut r: Vec<String> = Vec::new();
    let mut i: usize = 0;
    while i < inputs.len()
        invariant
            i <= inputs@.len(),
            strings_view(r@) == switch_commands(inputs@.take(i as int), layout),
        decreases inputs@.len() - i,
    {
        assert(inputs@.take(i + 1).drop_last() =~= inputs@.take(i as int));
        assert(inputs@.take(i + 1).last() == inputs@[i as int]);
        let ghost before = strings_view(r@);
        if crate::text::str_eq(inputs[i].input_type.as_str(), "keyboard") {
            let mut c = owned("input ");
            push_str(&mut c, inputs[i].identifier.as_str());
            push_str(&mut c, " xkb_switch_layout ");
            let n = usize_to_string(layout);
            push_str(&mut c, n.as_str());
            r.push(c);
            assert(strings_view(r@) =~= before.push(
                "input "@ + inputs@[i as int].identifier@ + " xkb_switch_layout "@ + decimal(layout as nat),
            ));
        }
        i += 1;
    }
    assert(inputs@.take(i as int) =~= inputs@);
    r
}

/// The main keyboard among Hyprland's keyboards, by their `main` flags: the
/// first that is main.
pub fn main_keyboard(main_flags: &Vec<bool>) -> (r: Option<usize>)
    ensures
        match r {
            Some(i) => i < main_flags@.len() && main_flags@[i as int] && forall|j: int| 0 <= j < i ==> !main_flags@[j],
            None => forall|j: int| 0 <= j < main_flags@.len() ==> !main_flags@[j],
        },
{
    let mut i: usize = 0;
    while i < main_flags.len()
        invariant
            i <= main_flags@.len(),
            forall|j: int| 0 <= j < i ==> !main_flags@[j],
        decreases main_flags@.len() - i,
    {
        if main_flags[i] {
            return Some(i);
        }
        i += 1;
    }
    None
}

} // verus!
