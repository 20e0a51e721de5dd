//! The bar's configuration: blocks, bars, variables and their defaults.

use vstd::prelude::*;
use crate::parse::{
    empty_placeholder, resolved_from, same_placeholder, spec_resolve, unwrap_or_clone, unwrap_or_empty,
    unwrapped_or, unwrapped_or_empty, value_changed, ParseError, Placeholder, PlaceholderContext,
};
use crate::pattern::{regex_is_match, regex_replace_all, RegexPattern};
use crate::source::CommandConfig;
use crate::vars::{named_map_of, NameMap};
use crate::text::{clone_opt_string, clone_strings, str_eq, strings_view};

verus! {

/// Which blocks a popup block shows when it pops up.
#[derive(Debug, Clone, Copy, PartialEq, Eq, Structural)]
pub enum PopupMode {
    /// The whole bar.
    Bar,
    /// The group (left, center or right) of the block.
    PartialBar,
    /// The block alone.
    Block,
}

/// Tells whether any of the flags is set.
pub trait AnyUpdated {
    fn any_updated(&self) -> bool;
}

impl AnyUpdated for [bool] {
    fn any_updated(&self) -> (r: bool)
        ensures
            r == exists|i: int| 0 <= i < self@.len() && self@[i],
    {
        let mut i: usize = 0;
        while i < self.len()
            invariant
                i <= self@.len(),
                forall|j: int| 0 <= j < i ==> !self@[j],
            decreases self@.len() - i,
        {
            if self[i] {
                return true;
            }
            i += 1;
        }
        false
    }
}

/// The commands run on mouse events.
#[derive(Debug)]
pub struct EventHandlers<D> {
    pub on_mouse_left: D,
    pub on_mouse_middle: D,
    pub on_mouse_right: D,
    pub on_scroll_up: D,
    pub on_scroll_down: D,
}

impl EventHandlers<Placeholder> {
    /// Resolves every handler; tells whether one of them changed.
    pub fn update<C: PlaceholderContext>(&mut self, vars: &C) -> (r: Result<bool, ParseError>)
        ensures
            resolved_from(final(self).on_mouse_left, old(self).on_mouse_left, vars.ctx_vars()),
            resolved_from(final(self).on_mouse_middle, old(self).on_mouse_middle, vars.ctx_vars()),
            resolved_from(final(self).on_mouse_right, old(self).on_mouse_right, vars.ctx_vars()),
            resolved_from(final(self).on_scroll_up, old(self).on_scroll_up, vars.ctx_vars()),
            resolved_from(final(self).on_scroll_down, old(self).on_scroll_down, vars.ctx_vars()),
            r matches Ok(changed) && changed == (value_changed(old(self).on_mouse_left, final(self).on_mouse_left)
                || value_changed(old(self).on_mouse_middle, final(self).on_mouse_middle)
                || value_changed(old(self).on_mouse_right, final(self).on_mouse_right)
                || value_changed(old(self).on_scroll_up, final(self).on_scroll_up)
                || value_changed(old(self).on_scroll_down, final(self).on_scroll_down)),
    {
        let a = self.on_mouse_left.update(vars)?;
        let b = self.on_mouse_middle.update(vars)?;
        let c = self.on_mouse_right.update(vars)?;
        let d = self.on_scroll_up.update(vars)?;
        let e = self.on_scroll_down.update(vars)?;
        Ok(a || b || c || d || e)
    }

    /// A copy.
    pub fn clone(&self) -> (r: Self)
        ensures
            same_placeholder(r.on_mouse_left, self.on_mouse_left),
            same_placeholder(r.on_mouse_middle, self.on_mouse_middle),
            same_placeholder(r.on_mouse_right, self.on_mouse_right),
            same_placeholder(r.on_scroll_up, self.on_scroll_up),
            same_placeholder(r.on_scroll_down, self.on_scroll_down),
    {
        EventHandlers {
            on_mouse_left: self.on_mouse_left.clone(),
            on_mouse_middle: self.on_mouse_middle.clone(),
            on_mouse_right: self.on_mouse_right.clone(),
            on_scroll_up: self.on_scroll_up.clone(),
            on_scroll_down: self.on_scroll_down.clone(),
        }
    }
}

impl EventHandlers<Option<Placeholder>> {
    /// Every handler that is not given is empty.
    pub fn with_default(self) -> (r: EventHandlers<Placeholder>)
        ensures
            unwrapped_or_empty(self.on_mouse_left, r.on_mouse_left),
            unwrapped_or_empty(self.on_mouse_middle, r.on_mouse_middle),
            unwrapped_or_empty(self.on_mouse_right, r.on_mouse_right),
            unwrapped_or_empty(self.on_scroll_up, r.on_scroll_up),
            unwrapped_or_empty(self.on_scroll_down, r.on_scroll_down),
    {
        EventHandlers {
            on_mouse_left: unwrap_or_empty(self.on_mouse_left),
            on_mouse_middle: unwrap_or_empty(self.on_mouse_middle),
            on_mouse_right: unwrap_or_empty(self.on_mouse_right),
            on_scroll_up: unwrap_or_empty(self.on_scroll_up),
            on_scroll_down: unwrap_or_empty(self.on_scroll_down),
        }
    }
}

/// Colors and lines drawn around a block. The line width is kept as the bit
/// pattern of its `f64` value.
#[derive(Debug)]
pub struct Decorations<D> {
    pub foreground: D,
    pub background: D,
    pub overline_color: D,
    pub underline_color: D,
    pub edgeline_color: D,
    pub line_width: Option<u64>,
}

impl Decorations<Placeholder> {
    /// Resolves every color; tells whether one of them changed.
    pub fn update<C: PlaceholderContext>(&mut self, vars: &C) -> (r: Result<bool, ParseError>)
        ensures
            resolved_from(final(self).foreground, old(self).foreground, vars.ctx_vars()),
            resolved_from(final(self).background, old(self).background, vars.ctx_vars()),
            resolved_from(final(self).overline_color, old(self).overline_color, vars.ctx_vars()),
            resolved_from(final(self).underline_color, old(self).underline_color, vars.ctx_vars()),
            resolved_from(final(self).edgeline_color, old(self).edgeline_color, vars.ctx_vars()),
            final(self).line_width == old(self).line_width,
            r matches Ok(changed) && changed == (value_changed(old(self).foreground, final(self).foreground)
                || value_changed(old(self).background, final(self).background)
                || value_changed(old(self).overline_color, final(self).overline_color)
                || value_changed(old(self).underline_color, final(self).underline_color)
                || value_changed(old(self).edgeline_color, final(self).edgeline_color)),
    {
        let a = self.foreground.update(vars)?;
        let b = self.background.update(vars)?;
        let c = self.overline_color.update(vars)?;
        let d = self.underline_color.update(vars)?;
        let e = self.edgeline_color.update(vars)?;
        Ok(a || b || c || d || e)
    }

    /// A copy.
    pub fn clone(&self) -> (r: Self)
        ensures
            same_decorations(r, *self),
    {
        Decorations {
            foreground: self.foreground.clone(),
            background: self.background.clone(),
            overline_color: self.overline_color.clone(),
            underline_color: self.underline_color.clone(),
            edgeline_color: self.edgeline_color.clone(),
            line_width: self.line_width,
        }
    }
}

/// Both decorations hold the same expressions, values and line width.
pub open spec fn same_decorations(a: Decorations<Placeholder>, b: Decorations<Placeholder>) -> bool {
    &&& same_placeholder(a.foreground, b.foreground)
    &&& same_placeholder(a.background, b.background)
    &&& same_placeholder(a.overline_color, b.overline_color)
    &&& same_placeholder(a.underline_color, b.underline_color)
    &&& same_placeholder(a.edgeline_color, b.edgeline_color)
    &&& a.line_width == b.line_width
}

/// The line width given, or the default one.
pub open spec fn or_bits(o: Option<u64>, d: Option<u64>) -> Option<u64> {
    match o {
        Some(v) => Some(v),
        None => d,
    }
}

impl Decorations<Option<Placeholder>> {
    /// Every decoration that is not given is taken from `default`.
    pub fn with_default(self, default: &Decorations<Placeholder>) -> (r: Decorations<Placeholder>)
        ensures
            unwrapped_or(self.foreground, default.foreground, r.foreground),
            unwrapped_or(self.background, default.background, r.background),
            unwrapped_or(self.overline_color, default.overline_color, r.overline_color),
            unwrapped_or(self.underline_color, default.underline_color, r.underline_color),
            unwrapped_or(self.edgeline_color, default.edgeline_color, r.edgeline_color),
            r.line_width == or_bits(self.line_width, default.line_width),
    {
        Decorations {
            foreground: unwrap_or_clone(self.foreground, &default.foreground),
            background: unwrap_or_clone(self.background, &default.background),
            overline_color: unwrap_or_clone(self.overline_color, &default.overline_color),
            underline_color: unwrap_or_clone(self.underline_color, &default.underline_color),
            edgeline_color: unwrap_or_clone(self.edgeline_color, &default.edgeline_color),
            line_width: match self.line_width {
                Some(v) => Some(v),
                None => default.line_width,
            },
        }
    }

    /// A copy.
    pub fn clone(&self) -> (r: Self)
        ensures
            same_opt(r.foreground, self.foreground),
            same_opt(r.background, self.background),
            same_opt(r.overline_color, self.overline_color),
            same_opt(r.underline_color, self.underline_color),
            same_opt(r.edgeline_color, self.edgeline_color),
            r.line_width == self.line_width,
    {
        Decorations {
            foreground: clone_opt(&self.foreground),
            background: clone_opt(&self.background),
            overline_color: clone_opt(&self.overline_color),
            underline_color: clone_opt(&self.underline_color),
            edgeline_color: clone_opt(&self.edgeline_color),
            line_width: self.line_width,
        }
    }
}

/// Both are absent, or both hold the same expression and value.
pub open spec fn same_opt(a: Option<Placeholder>, b: Option<Placeholder>) -> bool {
    match (a, b) {
        (Some(p), Some(q)) => same_placeholder(p, q),
        (None, None) => true,
        _ => false,
    }
}

/// A copy of an optional expression.
pub fn clone_opt(o: &Option<Placeholder>) -> (r: Option<Placeholder>)
    ensures
        same_opt(*o, r),
{
    match o {
        Some(p) => Some(p.clone()),
        None => None,
    }
}

} // verus!

verus! {

/// Each expression of `new` is the one of `old` resolved against `vars`,
/// paired with the same pattern.
pub open spec fn matches_resolved(
    new: Seq<(Placeholder, RegexPattern)>,
    old: Seq<(Placeholder, RegexPattern)>,
    vars: Map<Seq<char>, Seq<char>>,
) -> bool {
    &&& new.len() == old.len()
    &&& forall|i: int| 0 <= i < new.len() ==> resolved_from(#[trigger] new[i].0, old[i].0, vars)
        && new[i].1.pattern() == old[i].1.pattern()
}

/// Some expression of `new` has another value than the one of `old`.
pub open spec fn matches_changed(new: Seq<(Placeholder, RegexPattern)>, old: Seq<(Placeholder, RegexPattern)>) -> bool {
    exists|i: int| 0 <= i < new.len() && value_changed(old[i].0, #[trigger] new[i].0)
}

/// Both lists hold the same expressions and patterns.
pub open spec fn same_matches(a: Seq<(Placeholder, RegexPattern)>, b: Seq<(Placeholder, RegexPattern)>) -> bool {
    &&& a.len() == b.len()
    &&& forall|i: int| 0 <= i < a.len() ==> same_placeholder(#[trigger] a[i].0, b[i].0) && a[i].1.pattern() == b[i].1.pattern()
}

/// `a` holds the expressions of `b`, all of which are given, with the same patterns.
pub open spec fn matches_unwrapped(a: Seq<(Placeholder, RegexPattern)>, b: Seq<(Option<Placeholder>, RegexPattern)>) -> bool {
    &&& a.len() == b.len()
    &&& forall|i: int| 0 <= i < a.len() ==> (#[trigger] b[i].0 matches Some(p) && same_placeholder(a[i].0, p))
        && a[i].1.pattern() == b[i].1.pattern()
}

/// Each expression of `new` is the one of `old` resolved against `vars`.
pub open spec fn all_resolved(new: Seq<Placeholder>, old: Seq<Placeholder>, vars: Map<Seq<char>, Seq<char>>) -> bool {
    &&& new.len() == old.len()
    &&& forall|i: int| 0 <= i < new.len() ==> resolved_from(#[trigger] new[i], old[i], vars)
}

/// Some expression of `new` has another value than the one of `old`.
pub open spec fn any_changed(new: Seq<Placeholder>, old: Seq<Placeholder>) -> bool {
    exists|i: int| 0 <= i < new.len() && value_changed(old[i], #[trigger] new[i])
}

/// Both lists hold the same expressions and values.
pub open spec fn same_list(a: Seq<Placeholder>, b: Seq<Placeholder>) -> bool {
    &&& a.len() == b.len()
    &&& forall|i: int| 0 <= i < a.len() ==> same_placeholder(#[trigger] a[i], b[i])
}

/// Resolves every expression of a `(expression, pattern)` list; tells whether
/// a value changed.
pub fn update_matches<C: PlaceholderContext>(v: &mut Vec<(Placeholder, RegexPattern)>, vars: &C) -> (r: bool)
    ensures
        matches_resolved(final(v)@, old(v)@, vars.ctx_vars()),
        r == matches_changed(final(v)@, old(v)@),
{
    let ghost start = v@;
    let mut changed = false;
    let mut i: usize = 0;
    while i < v.len()
        invariant
            i <= v@.len() == start.len(),
            forall|j: int| i <= j < v@.len() ==> v@[j] == start[j],
            forall|j: int| 0 <= j < i ==> resolved_from(#[trigger] v@[j].0, start[j].0, vars.ctx_vars())
                && v@[j].1.pattern() == start[j].1.pattern(),
            changed == exists|j: int| 0 <= j < i && value_changed(start[j].0, #[trigger] v@[j].0),
        decreases v@.len() - i,
    {
        let ghost prev = v@;
        let c = match v[i].0.update(vars) {
            Ok(b) => b,
            Err(_) => false,
        };
        proof {
            assert(forall|j: int| 0 <= j < v@.len() && j != i ==> v@[j] == prev[j]);
            if c {
                assert(value_changed(start[i as int].0, v@[i as int].0));
            }
            if changed {
                let j = choose|j: int| 0 <= j < i && value_changed(start[j].0, prev[j].0);
                assert(value_changed(start[j].0, v@[j].0));
            }
        }
        changed = changed || c;
        i += 1;
    }
    changed
}

/// Resolves every expression of a list; tells whether a value changed.
pub fn update_all<C: PlaceholderContext>(v: &mut Vec<Placeholder>, vars: &C) -> (r: bool)
    ensures
        all_resolved(final(v)@, old(v)@, vars.ctx_vars()),
        r == any_changed(final(v)@, old(v)@),
{
    let ghost start = v@;
    let mut changed = false;
    let mut i: usize = 0;
    while i < v.len()
        invariant
            i <= v@.len() == start.len(),
            forall|j: int| i <= j < v@.len() ==> v@[j] == start[j],
            forall|j: int| 0 <= j < i ==> resolved_from(#[trigger] v@[j], start[j], vars.ctx_vars()),
            changed == exists|j: int| 0 <= j < i && value_changed(start[j], #[trigger] v@[j]),
        decreases v@.len() - i,
    {
        let ghost prev = v@;
        let c = match v[i].update(vars) {
            Ok(b) => b,
            Err(_) => false,
        };
        proof {
            assert(forall|j: int| 0 <= j < v@.len() && j != i ==> v@[j] == prev[j]);
            if c {
                assert(value_changed(start[i as int], v@[i as int]));
            }
            if changed {
                let j = choose|j: int| 0 <= j < i && value_changed(start[j], prev[j]);
                assert(value_changed(start[j], v@[j]));
            }
        }
        changed = changed || c;
        i += 1;
    }
    changed
}

/// A copy of a `(expression, pattern)` list.
pub fn clone_matches(v: &Vec<(Placeholder, RegexPattern)>) -> (r: Vec<(Placeholder, RegexPattern)>)
    ensures
        same_matches(r@, v@),
{
    let mut r: Vec<(Placeholder, RegexPattern)> = Vec::new();
    let mut i: usize = 0;
    while i < v.len()
        invariant
            i <= v@.len(),
            r@.len() == i,
            forall|j: int| 0 <= j < i ==> same_placeholder(#[trigger] r@[j].0, v@[j].0) && r@[j].1.pattern() == v@[j].1.pattern(),
        decreases v@.len() - i,
    {
        r.push((v[i].0.clone(), v[i].1.clone()));
        i += 1;
    }
    r
}

/// The list with every expression taken out of its `Option`.
pub fn unwrap_matches(v: &Vec<(Option<Placeholder>, RegexPattern)>) -> (r: Vec<(Placeholder, RegexPattern)>)
    requires
        forall|i: int| 0 <= i < v@.len() ==> (#[trigger] v@[i]).0 is Some,
    ensures
        matches_unwrapped(r@, v@),
{
    let mut r: Vec<(Placeholder, RegexPattern)> = Vec::new();
    let mut i: usize = 0;
    while i < v.len()
        invariant
            i <= v@.len(),
            forall|j: int| 0 <= j < v@.len() ==> (#[trigger] v@[j]).0 is Some,
            r@.len() == i,
            forall|j: int| 0 <= j < i ==> (#[trigger] v@[j].0 matches Some(p) && same_placeholder(r@[j].0, p))
                && r@[j].1.pattern() == v@[j].1.pattern(),
        decreases v@.len() - i,
    {
        let p = match &v[i].0 {
            Some(p) => p.clone(),
            None => Placeholder::default(),
        };
        r.push((p, v[i].1.clone()));
        i += 1;
    }
    r
}

/// A copy of a list of expressions.
pub fn clone_list(v: &Vec<Placeholder>) -> (r: Vec<Placeholder>)
    ensures
        same_list(r@, v@),
{
    let mut r: Vec<Placeholder> = Vec::new();
    let mut i: usize = 0;
    while i < v.len()
        invariant
            i <= v@.len(),
            r@.len() == i,
            forall|j: int| 0 <= j < i ==> same_placeholder(#[trigger] r@[j], v@[j]),
        decreases v@.len() - i,
    {
        r.push(v[i].clone());
        i += 1;
    }
    r
}

/// How a block is shown.
#[derive(Debug)]
pub struct DisplayOptions<D> {
    pub font: D,
    pub popup_value: D,
    pub output_format: D,
    pub pango_markup: Option<bool>,
    pub margin: Option<u64>,
    pub padding: Option<u64>,
    pub decorations: Decorations<D>,
    pub hover_decorations: Decorations<D>,
    pub show_if_matches: Vec<(D, RegexPattern)>,
    pub popup_show_if_some: Vec<D>,
    pub popup: Option<PopupMode>,
}

/// Whether some expression has a value that is not blank.
pub open spec fn any_non_blank(v: Seq<Placeholder>) -> bool {
    exists|i: int| 0 <= i < v.len() && !crate::text::is_blank((#[trigger] v[i]).value@)
}

/// Tells whether some expression of the list has a value that is not blank.
pub fn any_non_empty(v: &Vec<Placeholder>) -> (r: bool)
    ensures
        r == any_non_blank(v@),
{
    let mut i: usize = 0;
    while i < v.len()
        invariant
            i <= v@.len(),
            forall|j: int| 0 <= j < i ==> crate::text::is_blank((#[trigger] v@[j]).value@),
        decreases v@.len() - i,
    {
        if !crate::text::blank(v[i].value.as_str()) {
            return true;
        }
        i += 1;
    }
    false
}

impl DisplayOptions<Placeholder> {
    /// Resolves the font, the popup value, the decorations and the
    /// expressions of `show_if_matches` and `popup_show_if_some`; tells
    /// whether one of their values changed. The output format is left as it is.
    pub fn update<C: PlaceholderContext>(&mut self, vars: &C) -> (r: Result<bool, ParseError>)
        ensures
            resolved_from(final(self).font, old(self).font, vars.ctx_vars()),
            resolved_from(final(self).popup_value, old(self).popup_value, vars.ctx_vars()),
            same_placeholder(final(self).output_format, old(self).output_format),
            matches_resolved(final(self).show_if_matches@, old(self).show_if_matches@, vars.ctx_vars()),
            all_resolved(final(self).popup_show_if_some@, old(self).popup_show_if_some@, vars.ctx_vars()),
            resolved_from(final(self).decorations.foreground, old(self).decorations.foreground, vars.ctx_vars()),
            resolved_from(final(self).decorations.background, old(self).decorations.background, vars.ctx_vars()),
            resolved_from(final(self).decorations.overline_color, old(self).decorations.overline_color, vars.ctx_vars()),
            resolved_from(final(self).decorations.underline_color, old(self).decorations.underline_color, vars.ctx_vars()),
            resolved_from(final(self).decorations.edgeline_color, old(self).decorations.edgeline_color, vars.ctx_vars()),
            resolved_from(final(self).hover_decorations.foreground, old(self).hover_decorations.foreground, vars.ctx_vars()),
            resolved_from(final(self).hover_decorations.background, old(self).hover_decorations.background, vars.ctx_vars()),
            resolved_from(final(self).hover_decorations.overline_color, old(self).hover_decorations.overline_color, vars.ctx_vars()),
            resolved_from(final(self).hover_decorations.underline_color, old(self).hover_decorations.underline_color, vars.ctx_vars()),
            resolved_from(final(self).hover_decorations.edgeline_color, old(self).hover_decorations.edgeline_color, vars.ctx_vars()),
            final(self).decorations.line_width == old(self).decorations.line_width,
            final(self).hover_decorations.line_width == old(self).hover_decorations.line_width,
            final(self).pango_markup == old(self).pango_markup,
            final(self).margin == old(self).margin,
            final(self).padding == old(self).padding,
            final(self).popup == old(self).popup,
            r matches Ok(changed) && changed == (value_changed(old(self).font, final(self).font)
                || value_changed(old(self).popup_value, final(self).popup_value)
                || value_changed(old(self).decorations.foreground, final(self).decorations.foreground)
                || value_changed(old(self).decorations.background, final(self).decorations.background)
                || value_changed(old(self).decorations.overline_color, final(self).decorations.overline_color)
                || value_changed(old(self).decorations.underline_color, final(self).decorations.underline_color)
                || value_changed(old(self).decorations.edgeline_color, final(self).decorations.edgeline_color)
                || value_changed(old(self).hover_decorations.foreground, final(self).hover_decorations.foreground)
                || value_changed(old(self).hover_decorations.background, final(self).hover_decorations.background)
                || value_changed(old(self).hover_decorations.overline_color, final(self).hover_decorations.overline_color)
                || value_changed(old(self).hover_decorations.underline_color, final(self).hover_decorations.underline_color)
                || value_changed(old(self).hover_decorations.edgeline_color, final(self).hover_decorations.edgeline_color)
                || matches_changed(final(self).show_if_matches@, old(self).show_if_matches@)
                || any_changed(final(self).popup_show_if_some@, old(self).popup_show_if_some@)),
    {
        let a = self.font.update(vars)?;
        let b = self.popup_value.update(vars)?;
        let c = self.decorations.update(vars)?;
        let d = self.hover_decorations.update(vars)?;
        let e = update_matches(&mut self.show_if_matches, vars);
        let f = update_all(&mut self.popup_show_if_some, vars);
        Ok(a || b || c || d || e || f)
    }

    /// `None` when the block has no popup or nothing decides its popup;
    /// otherwise whether one of the `popup_show_if_some` values is not blank.
    pub fn popup_visible(&self) -> (r: Option<bool>)
        ensures
            r == (if self.popup is None || self.popup_show_if_some@.len() == 0 {
                None
            } else {
                Some(any_non_blank(self.popup_show_if_some@))
            }),
    {
        if self.popup.is_none() {
            None
        } else if self.popup_show_if_some.len() == 0 {
            None
        } else {
            Some(any_non_empty(&self.popup_show_if_some))
        }
    }

    /// Whether every `show_if_matches` value matches its pattern.
    pub fn all_match(&self) -> (r: bool)
        ensures
            r == forall|i: int| 0 <= i < self.show_if_matches@.len() ==> regex_is_match(
                (#[trigger] self.show_if_matches@[i]).1.pattern(),
                self.show_if_matches@[i].0.value@,
            ),
    {
        all_match(&self.show_if_matches)
    }

    /// A copy.
    pub fn clone(&self) -> (r: Self)
        ensures
            same_display(r, *self),
    {
        DisplayOptions {
            font: self.font.clone(),
            popup_value: self.popup_value.clone(),
            output_format: self.output_format.clone(),
            pango_markup: self.pango_markup,
            margin: self.margin,
            padding: self.padding,
            decorations: self.decorations.clone(),
            hover_decorations: self.hover_decorations.clone(),
            show_if_matches: clone_matches(&self.show_if_matches),
            popup_show_if_some: clone_list(&self.popup_show_if_some),
            popup: self.popup,
        }
    }
}

/// Whether every value of the list matches its pattern.
pub fn all_match(v: &Vec<(Placeholder, RegexPattern)>) -> (r: bool)
    ensures
        r == forall|i: int| 0 <= i < v@.len() ==> regex_is_match((#[trigger] v@[i]).1.pattern(), v@[i].0.value@),
{
    let mut i: usize = 0;
    while i < v.len()
        invariant
            i <= v@.len(),
            forall|j: int| 0 <= j < i ==> regex_is_match((#[trigger] v@[j]).1.pattern(), v@[j].0.value@),
        decreases v@.len() - i,
    {
        if !v[i].1.is_match(v[i].0.value.as_str()) {
            return false;
        }
        i += 1;
    }
    true
}

/// Both display options hold the same expressions, values and settings.
pub open spec fn same_display(a: DisplayOptions<Placeholder>, b: DisplayOptions<Placeholder>) -> bool {
    &&& same_placeholder(a.font, b.font)
    &&& same_placeholder(a.popup_value, b.popup_value)
    &&& same_placeholder(a.output_format, b.output_format)
    &&& a.pango_markup == b.pango_markup
    &&& a.margin == b.margin
    &&& a.padding == b.padding
    &&& same_decorations(a.decorations, b.decorations)
    &&& same_decorations(a.hover_decorations, b.hover_decorations)
    &&& same_matches(a.show_if_matches@, b.show_if_matches@)
    &&& same_list(a.popup_show_if_some@, b.popup_show_if_some@)
    &&& a.popup == b.popup
}

/// `r` is `d` with every option that is given taken from `o`.
pub open spec fn display_defaulted(o: DisplayOptions<Option<Placeholder>>, d: DisplayOptions<Placeholder>, r: DisplayOptions<Placeholder>) -> bool {
    &&& unwrapped_or(o.font, d.font, r.font)
    &&& unwrapped_or(o.output_format, d.output_format, r.output_format)
    &&& unwrapped_or(o.popup_value, d.popup_value, r.popup_value)
    &&& r.margin == or_bits(o.margin, d.margin)
    &&& r.padding == or_bits(o.padding, d.padding)
    &&& decorations_defaulted(o.decorations, d.decorations, r.decorations)
    &&& decorations_defaulted(o.hover_decorations, d.hover_decorations, r.hover_decorations)
    &&& (if o.show_if_matches@.len() == 0 {
        same_matches(r.show_if_matches@, d.show_if_matches@)
    } else {
        matches_unwrapped(r.show_if_matches@, o.show_if_matches@)
    })
    &&& r.popup_show_if_some@.len() == 0
    &&& r.popup == (match o.popup {
        Some(m) => Some(m),
        None => d.popup,
    })
    &&& r.pango_markup == Some(match o.pango_markup {
        Some(b) => b,
        None => match d.pango_markup {
            Some(b) => b,
            None => true,
        },
    })
}

/// `r` is `d` with every decoration that is given taken from `o`.
pub open spec fn decorations_defaulted(o: Decorations<Option<Placeholder>>, d: Decorations<Placeholder>, r: Decorations<Placeholder>) -> bool {
    &&& unwrapped_or(o.foreground, d.foreground, r.foreground)
    &&& unwrapped_or(o.background, d.background, r.background)
    &&& unwrapped_or(o.overline_color, d.overline_color, r.overline_color)
    &&& unwrapped_or(o.underline_color, d.underline_color, r.underline_color)
    &&& unwrapped_or(o.edgeline_color, d.edgeline_color, r.edgeline_color)
    &&& r.line_width == or_bits(o.line_width, d.line_width)
}

/// Every `show_if_matches` expression is given, as a configuration file
/// always gives it.
pub open spec fn display_complete(o: DisplayOptions<Option<Placeholder>>) -> bool {
    forall|i: int| 0 <= i < o.show_if_matches@.len() ==> (#[trigger] o.show_if_matches@[i]).0 is Some
}

impl DisplayOptions<Option<Placeholder>> {
    /// Every option that is not given is taken from `default`; the popup
    /// expressions start empty, and Pango markup, when neither gives it, is on.
    pub fn with_default(self, default: &DisplayOptions<Placeholder>) -> (r: DisplayOptions<Placeholder>)
        requires
            display_complete(self),
        ensures
            display_defaulted(self, *default, r),
    {
        let show_if_matches = if self.show_if_matches.len() == 0 {
            clone_matches(&default.show_if_matches)
        } else {
            unwrap_matches(&self.show_if_matches)
        };
        DisplayOptions {
            font: unwrap_or_clone(self.font, &default.font),
            output_format: unwrap_or_clone(self.output_format, &default.output_format),
            popup_value: unwrap_or_clone(self.popup_value, &default.popup_value),
            margin: match self.margin {
                Some(v) => Some(v),
                None => default.margin,
            },
            padding: match self.padding {
                Some(v) => Some(v),
                None => default.padding,
            },
            decorations: self.decorations.with_default(&default.decorations),
            hover_decorations: self.hover_decorations.with_default(&default.hover_decorations),
            show_if_matches,
            popup_show_if_some: Vec::new(),
            popup: match self.popup {
                Some(m) => Some(m),
                None => default.popup,
            },
            pango_markup: Some(
                match self.pango_markup {
                    Some(b) => b,
                    None => match default.pango_markup {
                        Some(b) => b,
                        None => true,
                    },
                },
            ),
        }
    }

    /// A copy.
    pub fn clone(&self) -> (r: Self)
        ensures
            same_display_opt(r, *self),
    {
        DisplayOptions {
            font: clone_opt(&self.font),
            popup_value: clone_opt(&self.popup_value),
            output_format: clone_opt(&self.output_format),
            pango_markup: self.pango_markup,
            margin: self.margin,
            padding: self.padding,
            decorations: self.decorations.clone(),
            hover_decorations: self.hover_decorations.clone(),
            show_if_matches: clone_opt_matches(&self.show_if_matches),
            popup_show_if_some: clone_opt_list(&self.popup_show_if_some),
            popup: self.popup,
        }
    }
}

/// Both hold the same optional expressions and settings.
pub open spec fn same_display_opt(a: DisplayOptions<Option<Placeholder>>, b: DisplayOptions<Option<Placeholder>>) -> bool {
    &&& same_opt(a.font, b.font)
    &&& same_opt(a.popup_value, b.popup_value)
    &&& same_opt(a.output_format, b.output_format)
    &&& a.pango_markup == b.pango_markup
    &&& a.margin == b.margin
    &&& a.padding == b.padding
    &&& same_decorations_opt(a.decorations, b.decorations)
    &&& same_decorations_opt(a.hover_decorations, b.hover_decorations)
    &&& a.show_if_matches@.len() == b.show_if_matches@.len()
    &&& (forall|i: int| 0 <= i < a.show_if_matches@.len() ==> same_opt((#[trigger] a.show_if_matches@[i]).0, b.show_if_matches@[i].0)
        && a.show_if_matches@[i].1.pattern() == b.show_if_matches@[i].1.pattern())
    &&& a.popup_show_if_some@.len() == b.popup_show_if_some@.len()
    &&& (forall|i: int| 0 <= i < a.popup_show_if_some@.len() ==> same_opt(#[trigger] a.popup_show_if_some@[i], b.popup_show_if_some@[i]))
    &&& a.popup == b.popup
}

/// Both hold the same optional decorations.
pub open spec fn same_decorations_opt(a: Decorations<Option<Placeholder>>, b: Decorations<Option<Placeholder>>) -> bool {
    &&& same_opt(a.foreground, b.foreground)
    &&& same_opt(a.background, b.background)
    &&& same_opt(a.overline_color, b.overline_color)
    &&& same_opt(a.underline_color, b.underline_color)
    &&& same_opt(a.edgeline_color, b.edgeline_color)
    &&& a.line_width == b.line_width
}

/// A copy of a list of `(optional expression, pattern)` pairs.
pub fn clone_opt_matches(v: &Vec<(Option<Placeholder>, RegexPattern)>) -> (r: Vec<(Option<Placeholder>, RegexPattern)>)
    ensures
        r@.len() == v@.len(),
        forall|i: int| 0 <= i < r@.len() ==> same_opt((#[trigger] r@[i]).0, v@[i].0) && r@[i].1.pattern() == v@[i].1.pattern(),
{
    let mut r: Vec<(Option<Placeholder>, RegexPattern)> = Vec::new();
    let mut i: usize = 0;
    while i < v.len()
        invariant
            i <= v@.len(),
            r@.len() == i,
            forall|j: int| 0 <= j < i ==> same_opt((#[trigger] r@[j]).0, v@[j].0) && r@[j].1.pattern() == v@[j].1.pattern(),
        decreases v@.len() - i,
    {
        r.push((clone_opt(&v[i].0), v[i].1.clone()));
        i += 1;
    }
    r
}

/// A copy of a list of optional expressions.
pub fn clone_opt_list(v: &Vec<Option<Placeholder>>) -> (r: Vec<Option<Placeholder>>)
    ensures
        r@.len() == v@.len(),
        forall|i: int| 0 <= i < r@.len() ==> same_opt(#[trigger] r@[i], v@[i]),
{
    let mut r: Vec<Option<Placeholder>> = Vec::new();
    let mut i: usize = 0;
    while i < v.len()
        invariant
            i <= v@.len(),
            r@.len() == i,
            forall|j: int| 0 <= j < i ==> same_opt(#[trigger] r@[j], v@[j]),
        decreases v@.len() - i,
    {
        r.push(clone_opt(&v[i]));
        i += 1;
    }
    r
}

} // verus!

verus! {

/// Pattern/replacement pairs applied to an input value.
#[derive(Debug)]
pub struct Replace<D>(pub Vec<(RegexPattern, D)>);

/// The patterns and current replacement texts.
pub open spec fn replace_pairs(v: Seq<(RegexPattern, Placeholder)>) -> Seq<(Seq<char>, Seq<char>)> {
    v.map_values(|p: (RegexPattern, Placeholder)| (p.0.pattern(), p.1.value@))
}

/// The replacements applied in order, each to the result of the one before
/// (a pattern that does not match leaves it as it is). With `first`, the
/// first pattern that matches is the last one applied.
pub open spec fn spec_replace_apply(rs: Seq<(Seq<char>, Seq<char>)>, first: bool, s: Seq<char>) -> Seq<char>
    decreases rs.len(),
{
    if rs.len() == 0 {
        s
    } else {
        let out = if regex_is_match(rs[0].0, s) { regex_replace_all(rs[0].0, s, rs[0].1) } else { s };
        if first && regex_is_match(rs[0].0, s) {
            out
        } else {
            spec_replace_apply(rs.drop_first(), first, out)
        }
    }
}

/// With `replace_first_match`, the first rule whose pattern matches the value
/// decides it: the rules before it change nothing, and the result is that
/// rule's replacement of the value, whatever rules come after it.
pub proof fn lemma_first_match_decides(rs: Seq<(Seq<char>, Seq<char>)>, s: Seq<char>, k: int)
    requires
        0 <= k < rs.len(),
        forall|j: int| 0 <= j < k ==> !regex_is_match(#[trigger] rs[j].0, s),
        regex_is_match(rs[k].0, s),
    ensures
        spec_replace_apply(rs, true, s) == regex_replace_all(rs[k].0, s, rs[k].1),
    decreases k,
{
    if k > 0 {
        let t = rs.drop_first();
        assert(!regex_is_match(rs[0].0, s));
        assert forall|j: int| 0 <= j < k - 1 implies !regex_is_match(#[trigger] t[j].0, s) by {
            assert(t[j] == rs[j + 1]);
        }
        assert(t[k - 1] == rs[k]);
        lemma_first_match_decides(t, s, k - 1);
    }
}

/// A value that no pattern matches comes out as it went in, whether or not
/// only the first match counts.
pub proof fn lemma_no_match_unchanged(rs: Seq<(Seq<char>, Seq<char>)>, first: bool, s: Seq<char>)
    requires
        forall|j: int| 0 <= j < rs.len() ==> !regex_is_match(#[trigger] rs[j].0, s),
    ensures
        spec_replace_apply(rs, first, s) == s,
    decreases rs.len(),
{
    if rs.len() > 0 {
        let t = rs.drop_first();
        assert(!regex_is_match(rs[0].0, s));
        assert forall|j: int| 0 <= j < t.len() implies !regex_is_match(#[trigger] t[j].0, s) by {
            assert(t[j] == rs[j + 1]);
        }
        lemma_no_match_unchanged(t, first, s);
    }
}

/// Each replacement of `new` is the one of `old` resolved, with the same pattern.
pub open spec fn replace_resolved(
    new: Seq<(RegexPattern, Placeholder)>,
    old: Seq<(RegexPattern, Placeholder)>,
    vars: Map<Seq<char>, Seq<char>>,
) -> bool {
    &&& new.len() == old.len()
    &&& forall|i: int| 0 <= i < new.len() ==> resolved_from((#[trigger] new[i]).1, old[i].1, vars)
        && new[i].0.pattern() == old[i].0.pattern()
}

impl Replace<Placeholder> {
    /// Resolves every replacement text.
    pub fn update<C: PlaceholderContext>(&mut self, vars: &C) -> (r: Result<(), ParseError>)
        ensures
            replace_resolved(final(self).0@, old(self).0@, vars.ctx_vars()),
            r is Ok,
    {
        let ghost start = self.0@;
        let mut i: usize = 0;
        while i < self.0.len()
            invariant
                i <= self.0@.len() == start.len(),
                forall|j: int| i <= j < self.0@.len() ==> self.0@[j] == start[j],
                forall|j: int| 0 <= j < i ==> resolved_from((#[trigger] self.0@[j]).1, start[j].1, vars.ctx_vars())
                    && self.0@[j].0.pattern() == start[j].0.pattern(),
            decreases self.0@.len() - i,
        {
            let _ = self.0[i].1.update(vars);
            i += 1;
        }
        Ok(())
    }

    /// The replacements applied to `string`.
    pub fn apply(&self, replace_first_match: bool, string: &str) -> (r: String)
        ensures
            r@ == spec_replace_apply(replace_pairs(self.0@), replace_first_match, string@),
    {
        let ghost rs = replace_pairs(self.0@);
        let mut s = crate::text::owned(string);
        let mut i: usize = 0;
        assert(rs.skip(0) == rs);
        while i < self.0.len()
            invariant
                i <= self.0@.len(),
                rs == replace_pairs(self.0@),
                spec_replace_apply(rs, replace_first_match, string@) == spec_replace_apply(
                    rs.skip(i as int),
                    replace_first_match,
                    s@,
                ),
            decreases self.0@.len() - i,
        {
            assert(rs.skip(i as int).drop_first() == rs.skip(i + 1));
            let (out, matched) = self.0[i].0.replace_all(s.as_str(), &self.0[i].1.value);
            s = out;
            if replace_first_match && matched {
                return s;
            }
            i += 1;
        }
        assert(rs.skip(i as int).len() == 0);
        s
    }
}

/// Where a value comes from, and how it is rewritten.
#[derive(Debug)]
pub struct Input<D> {
    pub value: D,
    pub replace_first_match: bool,
    pub replace: Replace<D>,
}

impl Input<Option<Placeholder>> {
    /// The value is `${value}` unless given; replacements without text get
    /// an empty one.
    pub fn with_defaults(&self) -> (r: Input<Placeholder>)
        ensures
            match self.value {
                Some(p) => same_placeholder(r.value, p),
                None => r.value.tokens_view() == crate::parse::value_placeholder_tokens()
                    && r.value.value@ == Seq::<char>::empty(),
            },
            r.replace_first_match == self.replace_first_match,
            r.replace.0@.len() == self.replace.0@.len(),
            forall|i: int| 0 <= i < r.replace.0@.len() ==> (#[trigger] r.replace.0@[i]).0.pattern() == self.replace.0@[i].0.pattern()
                && unwrapped_or_empty(self.replace.0@[i].1, r.replace.0@[i].1),
    {
        let value = match &self.value {
            Some(p) => p.clone(),
            None => crate::parse::value_placeholder(),
        };
        let mut replace: Vec<(RegexPattern, Placeholder)> = Vec::new();
        let mut i: usize = 0;
        while i < self.replace.0.len()
            invariant
                i <= self.replace.0@.len(),
                replace@.len() == i,
                forall|j: int| 0 <= j < i ==> (#[trigger] replace@[j]).0.pattern() == self.replace.0@[j].0.pattern()
                    && unwrapped_or_empty(self.replace.0@[j].1, replace@[j].1),
            decreases self.replace.0@.len() - i,
        {
            let p = match &self.replace.0[i].1 {
                Some(p) => p.clone(),
                None => Placeholder::default(),
            };
            replace.push((self.replace.0[i].0.clone(), p));
            i += 1;
        }
        Input { value, replace_first_match: self.replace_first_match, replace: Replace(replace) }
    }
}

impl Input<Placeholder> {
    /// Resolves the value and the replacement texts, then rewrites the value
    /// with the replacements; tells whether the value changed.
    pub fn update<C: PlaceholderContext>(&mut self, vars: &C) -> (r: Result<bool, ParseError>)
        ensures
            final(self).value.tokens_view() == old(self).value.tokens_view(),
            replace_resolved(final(self).replace.0@, old(self).replace.0@, vars.ctx_vars()),
            final(self).replace_first_match == old(self).replace_first_match,
            final(self).value.value@ == spec_replace_apply(
                replace_pairs(final(self).replace.0@),
                old(self).replace_first_match,
                spec_resolve(old(self).value.tokens_view(), vars.ctx_vars()),
            ),
            r matches Ok(changed) && changed == (old(self).value.value@ != final(self).value.value@),
    {
        let old_value = self.value.value.clone();
        self.value.update(vars)?;
        self.replace.update(vars)?;
        let new_value = self.replace.apply(self.replace_first_match, self.value.value.as_str());
        let updated = !str_eq(old_value.as_str(), new_value.as_str());
        self.value.value = new_value;
        Ok(updated)
    }

    /// A copy.
    pub fn clone(&self) -> (r: Self)
        ensures
            same_input(r, *self),
    {
        let mut replace: Vec<(RegexPattern, Placeholder)> = Vec::new();
        let mut i: usize = 0;
        while i < self.replace.0.len()
            invariant
                i <= self.replace.0@.len(),
                replace@.len() == i,
                forall|j: int| 0 <= j < i ==> (#[trigger] replace@[j]).0.pattern() == self.replace.0@[j].0.pattern()
                    && same_placeholder(replace@[j].1, self.replace.0@[j].1),
            decreases self.replace.0@.len() - i,
        {
            replace.push((self.replace.0[i].0.clone(), self.replace.0[i].1.clone()));
            i += 1;
        }
        Input { value: self.value.clone(), replace_first_match: self.replace_first_match, replace: Replace(replace) }
    }
}

/// Both inputs hold the same expressions, patterns and settings.
pub open spec fn same_input(a: Input<Placeholder>, b: Input<Placeholder>) -> bool {
    &&& same_placeholder(a.value, b.value)
    &&& a.replace_first_match == b.replace_first_match
    &&& a.replace.0@.len() == b.replace.0@.len()
    &&& forall|i: int| 0 <= i < a.replace.0@.len() ==> (#[trigger] a.replace.0@[i]).0.pattern() == b.replace.0@[i].0.pattern()
        && same_placeholder(a.replace.0@[i].1, b.replace.0@[i].1)
}

/// A named variable computed from other variables.
#[derive(Debug)]
pub struct Var<D> {
    pub name: String,
    pub input: Input<D>,
}

impl Var<Option<Placeholder>> {
    /// The variable with its input defaulted.
    pub fn with_defaults(&self) -> (r: Var<Placeholder>)
        ensures
            r.name@ == self.name@,
            input_defaulted(self.input, r.input),
    {
        Var { name: self.name.clone(), input: self.input.with_defaults() }
    }
}

} // verus!

verus! {

/// `r` is the input `o` with its defaults.
pub open spec fn input_defaulted(o: Input<Option<Placeholder>>, r: Input<Placeholder>) -> bool {
    &&& match o.value {
        Some(p) => same_placeholder(r.value, p),
        None => r.value.tokens_view() == crate::parse::value_placeholder_tokens() && r.value.value@ == Seq::<char>::empty(),
    }
    &&& r.replace_first_match == o.replace_first_match
    &&& r.replace.0@.len() == o.replace.0@.len()
    &&& forall|i: int| 0 <= i < r.replace.0@.len() ==> (#[trigger] r.replace.0@[i]).0.pattern() == o.replace.0@[i].0.pattern()
        && unwrapped_or_empty(o.replace.0@[i].1, r.replace.0@[i].1)
}

/// `r` holds the handlers of `o`, each empty when not given.
pub open spec fn handlers_defaulted(o: EventHandlers<Option<Placeholder>>, r: EventHandlers<Placeholder>) -> bool {
    &&& unwrapped_or_empty(o.on_mouse_left, r.on_mouse_left)
    &&& unwrapped_or_empty(o.on_mouse_middle, r.on_mouse_middle)
    &&& unwrapped_or_empty(o.on_mouse_right, r.on_mouse_right)
    &&& unwrapped_or_empty(o.on_scroll_up, r.on_scroll_up)
    &&& unwrapped_or_empty(o.on_scroll_down, r.on_scroll_down)
}

/// How a block is separated from its neighbours.
#[derive(Debug, Clone, Copy, PartialEq, Eq, Structural)]
pub enum SeparatorType {
    Left,
    Right,
    Gap,
}

/// Which display options are given, and how, is all that `with_default`
/// looks at: copies give the same result.
pub proof fn lemma_same_display_opt(a: DisplayOptions<Option<Placeholder>>, b: DisplayOptions<Option<Placeholder>>, d: DisplayOptions<Placeholder>)
    requires
        same_display_opt(a, b),
        display_complete(b),
    ensures
        display_complete(a),
{
    assert forall|i: int| 0 <= i < a.show_if_matches@.len() implies (#[trigger] a.show_if_matches@[i]).0 is Some by {
        assert(same_opt(a.show_if_matches@[i].0, b.show_if_matches@[i].0));
        assert(b.show_if_matches@[i].0 is Some);
    }
}

/// Two display option sets that agree field by field default to the same result.
pub proof fn lemma_defaulted_same(
    a: DisplayOptions<Option<Placeholder>>,
    b: DisplayOptions<Option<Placeholder>>,
    d: DisplayOptions<Placeholder>,
    r: DisplayOptions<Placeholder>,
)
    requires
        same_display_opt(a, b),
        display_defaulted(a, d, r),
    ensures
        display_defaulted(b, d, r),
{
    if b.show_if_matches@.len() != 0 {
        assert forall|i: int| 0 <= i < r.show_if_matches@.len() implies (#[trigger] b.show_if_matches@[i].0 matches Some(p)
            && same_placeholder(r.show_if_matches@[i].0, p)) && r.show_if_matches@[i].1.pattern()
            == b.show_if_matches@[i].1.pattern() by {
            assert(a.show_if_matches@[i].0 matches Some(p) && same_placeholder(r.show_if_matches@[i].0, p));
            assert(same_opt(a.show_if_matches@[i].0, b.show_if_matches@[i].0));
        }
    }
}

/// Defaults for the blocks that name it (or for all blocks when it has no name).
#[derive(Debug)]
pub struct DefaultBlock<D> {
    pub name: Option<String>,
    pub display: DisplayOptions<D>,
    pub active_display: DisplayOptions<D>,
}

impl DefaultBlock<Option<Placeholder>> {
    /// Every option that is not given is taken from `default_block`; the
    /// active display falls back on this block's display first.
    pub fn with_default(&self, default_block: &DefaultBlock<Placeholder>) -> (r: DefaultBlock<Placeholder>)
        requires
            display_complete(self.display),
            display_complete(self.active_display),
        ensures
            r.name is None,
            display_defaulted(self.display, default_block.display, r.display),
            exists|d: DisplayOptions<Placeholder>| display_defaulted(self.display, default_block.active_display, d)
                && display_defaulted(self.active_display, d, r.active_display),
    {
        let c1 = self.display.clone();
        proof {
            lemma_same_display_opt(c1, self.display, default_block.display);
        }
        let display = c1.with_default(&default_block.display);
        let c2 = self.display.clone();
        proof {
            lemma_same_display_opt(c2, self.display, default_block.display);
            lemma_defaulted_same(c1, self.display, default_block.display, display);
        }
        let own_active = c2.with_default(&default_block.active_display);
        let c3 = self.active_display.clone();
        proof {
            lemma_same_display_opt(c3, self.active_display, default_block.display);
            lemma_defaulted_same(c2, self.display, default_block.active_display, own_active);
        }
        let active_display = c3.with_default(&own_active);
        proof {
            lemma_defaulted_same(c3, self.active_display, own_active, active_display);
        }
        DefaultBlock { name: None, display, active_display }
    }
}

impl DefaultBlock<Placeholder> {
    /// A copy.
    pub fn clone(&self) -> (r: Self)
        ensures
            r.name == self.name,
            same_display(r.display, self.display),
            same_display(r.active_display, self.active_display),
    {
        DefaultBlock { name: self.name.clone(), display: self.display.clone(), active_display: self.active_display.clone() }
    }
}

/// A block that shows a text.
#[derive(Debug)]
pub struct TextBlock<D> {
    pub name: String,
    pub inherit: Option<String>,
    pub display: DisplayOptions<D>,
    pub input: Input<D>,
    pub separator_type: Option<SeparatorType>,
    /// Bit pattern of the `f64` radius.
    pub separator_radius: Option<u64>,
    pub event_handlers: EventHandlers<D>,
}

impl TextBlock<Option<Placeholder>> {
    /// The block with its defaults, the display ones taken from `default_block`.
    pub fn with_default(self, default_block: &DefaultBlock<Placeholder>) -> (r: TextBlock<Placeholder>)
        requires
            display_complete(self.display),
        ensures
            r.name@ == self.name@,
            r.inherit == self.inherit,
            display_defaulted(self.display, default_block.display, r.display),
            input_defaulted(self.input, r.input),
            r.separator_type == self.separator_type,
            r.separator_radius == self.separator_radius,
            handlers_defaulted(self.event_handlers, r.event_handlers),
    {
        TextBlock {
            name: self.name,
            inherit: self.inherit,
            display: self.display.with_default(&default_block.display),
            input: self.input.with_defaults(),
            separator_type: self.separator_type,
            separator_radius: self.separator_radius,
            event_handlers: self.event_handlers.with_default(),
        }
    }
}

/// A block that shows one of several variants, one of them active.
#[derive(Debug)]
pub struct EnumBlock<D> {
    pub name: String,
    pub inherit: Option<String>,
    pub active: D,
    pub variants: D,
    pub input: Input<D>,
    pub display: DisplayOptions<D>,
    pub active_display: DisplayOptions<D>,
    pub enum_separator: Option<String>,
    pub event_handlers: EventHandlers<D>,
}

impl EnumBlock<Option<Placeholder>> {
    /// The block with its defaults: the display ones come from
    /// `default_block`; those of the active variant from the block's own
    /// display first, then from the default active display.
    pub fn with_default(self, default_block: &DefaultBlock<Placeholder>) -> (r: EnumBlock<Placeholder>)
        requires
            display_complete(self.display),
            display_complete(self.active_display),
        ensures
            r.name@ == self.name@,
            r.inherit == self.inherit,
            unwrapped_or_empty(self.active, r.active),
            unwrapped_or_empty(self.variants, r.variants),
            r.enum_separator == self.enum_separator,
            input_defaulted(self.input, r.input),
            display_defaulted(self.display, default_block.display, r.display),
            exists|d: DisplayOptions<Placeholder>| display_defaulted(self.display, default_block.active_display, d)
                && display_defaulted(self.active_display, d, r.active_display),
            handlers_defaulted(self.event_handlers, r.event_handlers),
    {
        let copy = self.display.clone();
        proof {
            lemma_same_display_opt(copy, self.display, default_block.display);
        }
        let display = copy.with_default(&default_block.display);
        proof {
            lemma_defaulted_same(copy, self.display, default_block.display, display);
        }
        let own_active = self.display.with_default(&default_block.active_display);
        let active_display = self.active_display.with_default(&own_active);
        EnumBlock {
            name: self.name,
            inherit: self.inherit,
            active: unwrap_or_empty(self.active),
            variants: unwrap_or_empty(self.variants),
            enum_separator: self.enum_separator,
            input: self.input.with_defaults(),
            display,
            active_display,
            event_handlers: self.event_handlers.with_default(),
        }
    }
}

} // verus!

verus! {

/// How the text of a number block is read.
#[derive(Debug, Clone, Copy, PartialEq, Eq, Structural)]
pub enum NumberType {
    Number,
    Percent,
    Bytes,
}

/// A number shown as a bar of characters. Each of `fill`, `indicator` and
/// `empty` is a ramp: pairs of a threshold and the text used from it on.
#[derive(Debug)]
pub struct TextProgressBarDisplay<D> {
    pub fill: Vec<(String, String)>,
    pub indicator: Vec<(String, String)>,
    pub empty: Vec<(String, String)>,
    pub progress_bar_size: usize,
    pub phantom_data: std::marker::PhantomData<D>,
}

/// The default length of a progress bar.
pub fn default_progress_size() -> (r: usize)
    ensures
        r == 10,
{
    10
}

/// A ramp with one entry: `text` from the lowest value on.
fn single_ramp(text: &str) -> (r: Vec<(String, String)>)
    ensures
        r@.len() == 1,
        r@[0].0@ == Seq::<char>::empty(),
        r@[0].1@ == text@,
{
    let mut v: Vec<(String, String)> = Vec::new();
    v.push((String::new(), crate::text::owned(text)));
    v
}

/// The default fill of a progress bar: `━`.
pub fn default_progress_fill() -> (r: Vec<(String, String)>)
    ensures
        r@.len() == 1,
        r@[0].0@ == Seq::<char>::empty(),
        r@[0].1@ == seq!['\u{2501}'],
{
    let t = "\u{2501}";
    proof {
        reveal_strlit("\u{2501}");
    }
    single_ramp(t)
}

/// The default indicator of a progress bar: `雷`.
pub fn default_progress_indicator() -> (r: Vec<(String, String)>)
    ensures
        r@.len() == 1,
        r@[0].0@ == Seq::<char>::empty(),
        r@[0].1@ == seq!['\u{96f7}'],
{
    let t = "\u{96f7}";
    proof {
        reveal_strlit("\u{96f7}");
    }
    single_ramp(t)
}

/// The default empty part of a progress bar: a blank.
pub fn default_progress_empty() -> (r: Vec<(String, String)>)
    ensures
        r@.len() == 1,
        r@[0].0@ == Seq::<char>::empty(),
        r@[0].1@ == seq![' '],
{
    let t = " ";
    proof {
        reveal_strlit(" ");
    }
    single_ramp(t)
}

impl TextProgressBarDisplay<Option<Placeholder>> {
    /// The same bar, for resolved expressions.
    pub fn with_default(self) -> (r: TextProgressBarDisplay<Placeholder>)
        ensures
            r.fill == self.fill,
            r.indicator == self.indicator,
            r.empty == self.empty,
            r.progress_bar_size == self.progress_bar_size,
    {
        TextProgressBarDisplay {
            fill: self.fill,
            indicator: self.indicator,
            empty: self.empty,
            progress_bar_size: self.progress_bar_size,
            phantom_data: std::marker::PhantomData,
        }
    }
}

/// A number shown as text.
#[derive(Debug)]
pub struct NumberTextDisplay<D> {
    pub number_type: Option<NumberType>,
    pub phantom_data: std::marker::PhantomData<D>,
}

impl NumberTextDisplay<Option<Placeholder>> {
    /// The number type given, or the one of the block's input.
    pub fn with_default(self, input_number_type: NumberType) -> (r: NumberTextDisplay<Placeholder>)
        ensures
            r.number_type == Some(
                match self.number_type {
                    Some(t) => t,
                    None => input_number_type,
                },
            ),
    {
        let number_type = match self.number_type {
            Some(t) => t,
            None => input_number_type,
        };
        NumberTextDisplay { number_type: Some(number_type), phantom_data: std::marker::PhantomData }
    }
}

/// How a number is shown.
#[derive(Debug)]
pub enum NumberDisplay<D> {
    Text(NumberTextDisplay<D>),
    ProgressBar(TextProgressBarDisplay<D>),
}

/// Inputs already turned into what is drawn, so that a change that draws
/// the same does not cause a redraw.
#[derive(Debug)]
pub struct NumberParsedData {
    pub text_bar_string: String,
}

/// A block that shows a number.
#[derive(Debug)]
pub struct NumberBlock<D> {
    pub name: String,
    pub inherit: Option<String>,
    pub min_value: D,
    pub max_value: D,
    pub display: DisplayOptions<D>,
    pub input: Input<D>,
    pub number_type: NumberType,
    pub number_display: Option<NumberDisplay<D>>,
    pub ramp: Vec<(String, D)>,
    pub parsed_data: NumberParsedData,
    pub event_handlers: EventHandlers<D>,
}

impl NumberBlock<Option<Placeholder>> {
    /// The block with its defaults: `0` as minimum, no maximum, a text
    /// display of the block's number type unless another display is given.
    pub fn with_default(self, default_block: &DefaultBlock<Placeholder>) -> (r: NumberBlock<Placeholder>)
        requires
            display_complete(self.display),
        ensures
            r.name@ == self.name@,
            r.inherit == self.inherit,
            match self.min_value {
                Some(p) => same_placeholder(r.min_value, p),
                None => r.min_value.tokens_view() == crate::parse::flush(seq![], seq!['0']) && r.min_value.value@ == Seq::<char>::empty(),
            },
            unwrapped_or_empty(self.max_value, r.max_value),
            display_defaulted(self.display, default_block.display, r.display),
            r.number_type == self.number_type,
            match self.number_display {
                Some(NumberDisplay::ProgressBar(t)) => r.number_display matches Some(NumberDisplay::ProgressBar(u))
                    && u.fill == t.fill && u.indicator == t.indicator && u.empty == t.empty
                    && u.progress_bar_size == t.progress_bar_size,
                Some(NumberDisplay::Text(t)) => r.number_display matches Some(NumberDisplay::Text(u))
                    && u.number_type == Some(match t.number_type { Some(n) => n, None => self.number_type }),
                None => r.number_display matches Some(NumberDisplay::Text(u)) && u.number_type == Some(self.number_type),
            },
            r.ramp@.len() == self.ramp@.len(),
            forall|i: int| 0 <= i < r.ramp@.len() ==> (#[trigger] r.ramp@[i]).0@ == self.ramp@[i].0@
                && unwrapped_or_empty(self.ramp@[i].1, r.ramp@[i].1),
            input_defaulted(self.input, r.input),
            r.parsed_data.text_bar_string@ == Seq::<char>::empty(),
            handlers_defaulted(self.event_handlers, r.event_handlers),
    {
        let min_value = match self.min_value {
            Some(p) => p,
            None => {
                let t = "0";
                proof {
                    reveal_strlit("0");
                    assert(t@ =~= seq!['0']);
                }
                crate::parse::plain(t)
            },
        };
        let number_type = self.number_type;
        let number_display = Some(
            match self.number_display {
                Some(NumberDisplay::ProgressBar(t)) => NumberDisplay::ProgressBar(t.with_default()),
                Some(NumberDisplay::Text(t)) => NumberDisplay::Text(t.with_default(number_type)),
                None => NumberDisplay::Text(
                    NumberTextDisplay { number_type: None, phantom_data: std::marker::PhantomData }.with_default(number_type),
                ),
            },
        );
        let mut ramp: Vec<(String, Placeholder)> = Vec::new();
        let mut i: usize = 0;
        while i < self.ramp.len()
            invariant
                i <= self.ramp@.len(),
                ramp@.len() == i,
                forall|j: int| 0 <= j < i ==> (#[trigger] ramp@[j]).0@ == self.ramp@[j].0@
                    && unwrapped_or_empty(self.ramp@[j].1, ramp@[j].1),
            decreases self.ramp@.len() - i,
        {
            let p = match &self.ramp[i].1 {
                Some(p) => p.clone(),
                None => Placeholder::default(),
            };
            ramp.push((self.ramp[i].0.clone(), p));
            i += 1;
        }
        NumberBlock {
            name: self.name,
            inherit: self.inherit,
            min_value,
            max_value: unwrap_or_empty(self.max_value),
            display: self.display.with_default(&default_block.display),
            number_type,
            number_display,
            ramp,
            input: self.input.with_defaults(),
            parsed_data: NumberParsedData { text_bar_string: String::new() },
            event_handlers: self.event_handlers.with_default(),
        }
    }
}

/// How large an image may be drawn.
#[derive(Debug, Clone, Copy, PartialEq, Eq, Structural)]
pub struct ImageOptions {
    pub max_image_height: Option<u32>,
}

/// A block that shows an image from a file.
#[derive(Debug)]
pub struct ImageBlock<D> {
    pub name: String,
    pub inherit: Option<String>,
    pub display: DisplayOptions<D>,
    pub image_options: ImageOptions,
    pub updater_value: D,
    pub input: Input<D>,
    pub event_handlers: EventHandlers<D>,
}

impl ImageBlock<Option<Placeholder>> {
    /// The block with its defaults, the display ones from `default_block`.
    pub fn with_default(self, default_block: &DefaultBlock<Placeholder>) -> (r: ImageBlock<Placeholder>)
        requires
            display_complete(self.display),
        ensures
            r.name@ == self.name@,
            r.inherit == self.inherit,
            display_defaulted(self.display, default_block.display, r.display),
            r.image_options == self.image_options,
            unwrapped_or_empty(self.updater_value, r.updater_value),
            input_defaulted(self.input, r.input),
            handlers_defaulted(self.event_handlers, r.event_handlers),
    {
        ImageBlock {
            name: self.name,
            inherit: self.inherit,
            display: self.display.with_default(&default_block.display),
            image_options: self.image_options,
            updater_value: unwrap_or_empty(self.updater_value),
            input: self.input.with_defaults(),
            event_handlers: self.event_handlers.with_default(),
        }
    }
}

} // verus!

verus! {

/// A block of the bar, of one of the kinds.
#[derive(Debug)]
pub enum Block<D> {
    Text(TextBlock<D>),
    Enum(EnumBlock<D>),
    Number(NumberBlock<D>),
    Image(ImageBlock<D>),
}

/// The name of a block.
pub open spec fn block_name<D>(b: Block<D>) -> String {
    match b {
        Block::Text(e) => e.name,
        Block::Enum(e) => e.name,
        Block::Number(e) => e.name,
        Block::Image(e) => e.name,
    }
}

/// The default block that a block inherits from, if it names one.
pub open spec fn block_inherit<D>(b: Block<D>) -> Option<String> {
    match b {
        Block::Text(e) => e.inherit,
        Block::Enum(e) => e.inherit,
        Block::Number(e) => e.inherit,
        Block::Image(e) => e.inherit,
    }
}

/// The display options of a block.
pub open spec fn block_display<D>(b: Block<D>) -> DisplayOptions<D> {
    match b {
        Block::Text(e) => e.display,
        Block::Enum(e) => e.display,
        Block::Number(e) => e.display,
        Block::Image(e) => e.display,
    }
}

/// Every `show_if_matches` expression of the block is given.
pub open spec fn block_complete(b: Block<Option<Placeholder>>) -> bool {
    match b {
        Block::Enum(e) => display_complete(e.display) && display_complete(e.active_display),
        _ => display_complete(block_display(b)),
    }
}

/// `r` is the block `o` of the same kind with its defaults, the display
/// ones taken from `d`.
pub open spec fn block_defaulted(o: Block<Option<Placeholder>>, d: DefaultBlock<Placeholder>, r: Block<Placeholder>) -> bool {
    match (o, r) {
        (Block::Text(e), Block::Text(t)) => t.name@ == e.name@ && t.inherit == e.inherit
            && display_defaulted(e.display, d.display, t.display) && input_defaulted(e.input, t.input)
            && t.separator_type == e.separator_type && t.separator_radius == e.separator_radius
            && handlers_defaulted(e.event_handlers, t.event_handlers),
        (Block::Enum(e), Block::Enum(t)) => t.name@ == e.name@ && t.inherit == e.inherit
            && unwrapped_or_empty(e.active, t.active) && unwrapped_or_empty(e.variants, t.variants)
            && t.enum_separator == e.enum_separator && input_defaulted(e.input, t.input)
            && display_defaulted(e.display, d.display, t.display)
            && (exists|a: DisplayOptions<Placeholder>| display_defaulted(e.display, d.active_display, a)
                && display_defaulted(e.active_display, a, t.active_display))
            && handlers_defaulted(e.event_handlers, t.event_handlers),
        (Block::Number(e), Block::Number(t)) => t.name@ == e.name@ && t.inherit == e.inherit
            && display_defaulted(e.display, d.display, t.display) && input_defaulted(e.input, t.input)
            && t.number_type == e.number_type && unwrapped_or_empty(e.max_value, t.max_value)
            && match e.min_value {
                Some(p) => same_placeholder(t.min_value, p),
                None => t.min_value.tokens_view() == crate::parse::flush(seq![], seq!['0']) && t.min_value.value@ == Seq::<char>::empty(),
            }
            && match e.number_display {
                Some(NumberDisplay::ProgressBar(x)) => t.number_display matches Some(NumberDisplay::ProgressBar(u))
                    && u.fill == x.fill && u.indicator == x.indicator && u.empty == x.empty
                    && u.progress_bar_size == x.progress_bar_size,
                Some(NumberDisplay::Text(x)) => t.number_display matches Some(NumberDisplay::Text(u))
                    && u.number_type == Some(match x.number_type { Some(n) => n, None => e.number_type }),
                None => t.number_display matches Some(NumberDisplay::Text(u)) && u.number_type == Some(e.number_type),
            }
            && t.ramp@.len() == e.ramp@.len()
            && (forall|i: int| 0 <= i < t.ramp@.len() ==> (#[trigger] t.ramp@[i]).0@ == e.ramp@[i].0@
                && unwrapped_or_empty(e.ramp@[i].1, t.ramp@[i].1))
            && t.parsed_data.text_bar_string@ == Seq::<char>::empty()
            && handlers_defaulted(e.event_handlers, t.event_handlers),
        (Block::Image(e), Block::Image(t)) => t.name@ == e.name@ && t.inherit == e.inherit
            && display_defaulted(e.display, d.display, t.display) && input_defaulted(e.input, t.input)
            && t.image_options == e.image_options && unwrapped_or_empty(e.updater_value, t.updater_value)
            && handlers_defaulted(e.event_handlers, t.event_handlers),
        _ => false,
    }
}

impl<D> Block<D> {
    /// The default block that the block inherits from, if it names one.
    pub fn inherit(&self) -> (r: &Option<String>)
        ensures
            *r == block_inherit(*self),
    {
        match self {
            Block::Text(e) => &e.inherit,
            Block::Enum(e) => &e.inherit,
            Block::Number(e) => &e.inherit,
            Block::Image(e) => &e.inherit,
        }
    }

    /// The name of the block.
    pub fn name(&self) -> (r: &String)
        ensures
            *r == block_name(*self),
    {
        match self {
            Block::Text(e) => &e.name,
            Block::Enum(e) => &e.name,
            Block::Number(e) => &e.name,
            Block::Image(e) => &e.name,
        }
    }
}

impl Block<Option<Placeholder>> {
    /// The block's name, and the block with its defaults taken from `default_block`.
    pub fn with_default_and_name(self, default_block: &DefaultBlock<Placeholder>) -> (r: (String, Block<Placeholder>))
        requires
            block_complete(self),
        ensures
            r.0@ == block_name(self)@,
            block_defaulted(self, *default_block, r.1),
    {
        match self {
            Block::Enum(e) => {
                let name = e.name.clone();
                (name, Block::Enum(e.with_default(default_block)))
            },
            Block::Text(e) => {
                let name = e.name.clone();
                (name, Block::Text(e.with_default(default_block)))
            },
            Block::Number(e) => {
                let name = e.name.clone();
                (name, Block::Number(e.with_default(default_block)))
            },
            Block::Image(e) => {
                let name = e.name.clone();
                (name, Block::Image(e.with_default(default_block)))
            },
        }
    }
}

impl Block<Placeholder> {
    /// The popup mode of the block, if it has a popup.
    pub fn popup(&self) -> (r: Option<PopupMode>)
        ensures
            r == block_display(*self).popup,
    {
        match self {
            Block::Text(e) => e.display.popup,
            Block::Enum(e) => e.display.popup,
            Block::Number(e) => e.display.popup,
            Block::Image(e) => e.display.popup,
        }
    }

    /// Adds an expression whose value, when not blank, shows the block's popup.
    pub fn add_popup_var(&mut self, var: Placeholder)
        ensures
            block_display(*final(self)).popup_show_if_some@ == block_display(*old(self)).popup_show_if_some@.push(var),
            *final(self) == with_popup_vars(*old(self), block_display(*final(self)).popup_show_if_some),
    {
        match self {
            Block::Text(e) => e.display.popup_show_if_some.push(var),
            Block::Enum(e) => e.display.popup_show_if_some.push(var),
            Block::Number(e) => e.display.popup_show_if_some.push(var),
            Block::Image(e) => e.display.popup_show_if_some.push(var),
        }
    }
}

/// The block `b` with `v` as the popup expressions of its display, all else kept.
pub open spec fn with_popup_vars(b: Block<Placeholder>, v: Vec<Placeholder>) -> Block<Placeholder> {
    match b {
        Block::Text(e) => Block::Text(TextBlock { display: DisplayOptions { popup_show_if_some: v, ..e.display }, ..e }),
        Block::Enum(e) => Block::Enum(EnumBlock { display: DisplayOptions { popup_show_if_some: v, ..e.display }, ..e }),
        Block::Number(e) => Block::Number(NumberBlock { display: DisplayOptions { popup_show_if_some: v, ..e.display }, ..e }),
        Block::Image(e) => Block::Image(ImageBlock { display: DisplayOptions { popup_show_if_some: v, ..e.display }, ..e }),
    }
}

} // verus!

verus! {

/// Where the bar stands on the screen.
#[derive(Debug, Clone, Copy, PartialEq, Eq, Structural)]
pub enum BarPosition {
    Top,
    Center,
    Bottom,
}

impl Default for BarPosition {
    fn default() -> (r: Self)
        ensures
            r == BarPosition::Bottom,
    {
        BarPosition::Bottom
    }
}

/// Room left around the bar, in pixels.
#[derive(Debug, Clone, Copy, PartialEq, Eq, Structural)]
pub struct Margin {
    pub left: u16,
    pub right: u16,
    pub top: u16,
    pub bottom: u16,
}

impl Default for Margin {
    fn default() -> (r: Self)
        ensures
            r == (Margin { left: 0, right: 0, top: 0, bottom: 0 }),
    {
        Margin { left: 0, right: 0, top: 0, bottom: 0 }
    }
}

impl Margin {
    /// The same margin on all four sides, a configured integer taken as `u16`
    /// (its low sixteen bits).
    pub fn from_int(value: i64) -> (r: Self)
        ensures
            r.left == value as u16,
            r.right == value as u16,
            r.top == value as u16,
            r.bottom == value as u16,
    {
        let v = value as u16;
        Margin { left: v, right: v, top: v, bottom: v }
    }
}

/// A bar: its blocks, where it stands and when it shows.
#[derive(Debug)]
pub struct Bar<D> {
    pub blocks_left: Vec<String>,
    pub blocks_center: Vec<String>,
    pub blocks_right: Vec<String>,
    pub monitor: Option<String>,
    pub height: u16,
    pub position: BarPosition,
    pub margin: Margin,
    pub background: D,
    pub popup: bool,
    pub popup_at_edge: bool,
    /// Expressions with patterns: the bar shows only when every value matches.
    pub show_if_matches: Vec<(D, RegexPattern)>,
    pub popup_show_if_some: Vec<D>,
}

/// `p` is the literal text `s`, with an empty value.
pub open spec fn is_text(p: Placeholder, s: Seq<char>) -> bool {
    p.tokens_view() == crate::parse::flush(seq![], s) && p.value@ == Seq::<char>::empty()
}

/// The background of a bar when none is configured: transparent, as the
/// configuration reference documents it.
fn default_bar_background() -> (r: Placeholder)
    ensures
        is_text(r, "#00000000"@),
{
    let t = "#00000000";
    proof {
        reveal_strlit("#00000000");
    }
    crate::parse::plain(t)
}

impl Bar<Option<Placeholder>> {
    /// The bar with its defaults: a transparent background unless one is
    /// given, and no popup expressions yet.
    pub fn with_default(&self) -> (r: Bar<Placeholder>)
        requires
            forall|i: int| 0 <= i < self.show_if_matches@.len() ==> (#[trigger] self.show_if_matches@[i]).0 is Some,
        ensures
            r.blocks_left@ == self.blocks_left@,
            r.blocks_center@ == self.blocks_center@,
            r.blocks_right@ == self.blocks_right@,
            r.monitor == self.monitor,
            r.height == self.height,
            r.position == self.position,
            r.margin == self.margin,
            match self.background {
                Some(p) => same_placeholder(r.background, p),
                None => is_text(r.background, "#00000000"@),
            },
            r.popup == self.popup,
            r.popup_at_edge == self.popup_at_edge,
            matches_unwrapped(r.show_if_matches@, self.show_if_matches@),
            r.popup_show_if_some@.len() == 0,
    {
        let background = match &self.background {
            Some(p) => p.clone(),
            None => default_bar_background(),
        };
        Bar {
            blocks_left: clone_strings(&self.blocks_left),
            blocks_center: clone_strings(&self.blocks_center),
            blocks_right: clone_strings(&self.blocks_right),
            monitor: clone_opt_string(&self.monitor),
            height: self.height,
            position: self.position,
            margin: self.margin,
            background,
            popup: self.popup,
            popup_at_edge: self.popup_at_edge,
            show_if_matches: unwrap_matches(&self.show_if_matches),
            popup_show_if_some: Vec::new(),
        }
    }
}

/// Whether the pointer at the screen's edge pops up a popup bar when the
/// configuration does not say: it does not, as the configuration reference
/// documents.
pub fn default_popup_at_edge() -> (r: bool)
    ensures
        !r,
{
    false
}

/// Bars stand at the bottom unless configured otherwise.
pub fn default_bar_position() -> (r: BarPosition)
    ensures
        r == BarPosition::Bottom,
{
    BarPosition::Bottom
}

/// Bars are 32 pixels high unless configured otherwise.
pub fn default_height() -> (r: u16)
    ensures
        r == 32,
{
    32
}

/// Bars have no margin unless configured otherwise.
pub fn default_margin() -> (r: Margin)
    ensures
        r == (Margin { left: 0, right: 0, top: 0, bottom: 0 }),
{
    Margin::from_int(0)
}

/// Bit pattern of the `f64` 1.1, the default line width.
pub const LINE_WIDTH_BITS: u64 = 0x3FF1_9999_9999_999A;

/// Bit pattern of the `f64` 8.0, the default padding.
pub const PADDING_BITS: u64 = 0x4020_0000_0000_0000;

/// The decorations of the default display, with `fg` as foreground.
pub open spec fn is_default_decorations(d: Decorations<Placeholder>, fg: Seq<char>) -> bool {
    &&& is_text(d.foreground, fg)
    &&& is_text(d.background, "#191919"@)
    &&& is_text(d.overline_color, ""@)
    &&& is_text(d.underline_color, ""@)
    &&& is_text(d.edgeline_color, ""@)
    &&& d.line_width == Some(LINE_WIDTH_BITS)
}

/// The display of a block that configures nothing, with `fg` as the foreground.
pub open spec fn is_default_display_with(d: DisplayOptions<Placeholder>, fg: Seq<char>) -> bool {
    &&& is_text(d.popup_value, ""@)
    &&& d.output_format.tokens_view() == crate::parse::value_placeholder_tokens()
    &&& d.output_format.value@ == Seq::<char>::empty()
    &&& is_text(d.font, "monospace 12"@)
    &&& d.pango_markup == Some(true)
    &&& d.margin == Some(0u64)
    &&& d.padding == Some(PADDING_BITS)
    &&& d.show_if_matches@.len() == 0
    &&& d.popup_show_if_some@.len() == 0
    &&& d.popup is None
    &&& is_default_decorations(d.decorations, fg)
    &&& is_default_decorations(d.hover_decorations, fg)
}

/// The default display: `#dddddd` on `#191919`.
pub open spec fn is_default_display(d: DisplayOptions<Placeholder>) -> bool {
    is_default_display_with(d, "#dddddd"@)
}

/// The default display of an active variant: `#ffffff` on `#191919`.
pub open spec fn is_default_active_display(d: DisplayOptions<Placeholder>) -> bool {
    is_default_display_with(d, "#ffffff"@)
}

/// An expression of literal text.
fn text(t: &str) -> (r: Placeholder)
    requires
        forall|i: int| 0 <= i < t@.len() ==> t@[i] != '$',
    ensures
        is_text(r, t@),
{
    crate::parse::plain(t)
}

/// The default decorations with `fg` as foreground.
fn default_decorations(fg: &str) -> (r: Decorations<Placeholder>)
    requires
        forall|i: int| 0 <= i < fg@.len() ==> fg@[i] != '$',
    ensures
        is_default_decorations(r, fg@),
{
    let bg = "#191919";
    let none = "";
    proof {
        reveal_strlit("#191919");
        reveal_strlit("");
    }
    Decorations {
        foreground: text(fg),
        background: text(bg),
        overline_color: text(none),
        underline_color: text(none),
        edgeline_color: text(none),
        line_width: Some(LINE_WIDTH_BITS),
    }
}

/// The default display with `fg` as foreground.
fn default_display_with(fg: &str) -> (r: DisplayOptions<Placeholder>)
    requires
        forall|i: int| 0 <= i < fg@.len() ==> fg@[i] != '$',
    ensures
        is_default_display_with(r, fg@),
{
    let none = "";
    let font = "monospace 12";
    proof {
        reveal_strlit("");
        reveal_strlit("monospace 12");
    }
    DisplayOptions {
        popup_value: text(none),
        output_format: crate::parse::value_placeholder(),
        font: text(font),
        pango_markup: Some(true),
        margin: Some(0u64),
        padding: Some(PADDING_BITS),
        show_if_matches: Vec::new(),
        popup_show_if_some: Vec::new(),
        popup: None,
        hover_decorations: default_decorations(fg),
        decorations: default_decorations(fg),
    }
}

/// How blocks are shown when nothing else is configured: `monospace 12`,
/// `#dddddd` on `#191919`, 8 pixels of padding, lines 1.1 wide.
pub fn default_display() -> (r: DisplayOptions<Placeholder>)
    ensures
        is_default_display(r),
{
    let fg = "#dddddd";
    proof {
        reveal_strlit("#dddddd");
    }
    default_display_with(fg)
}

/// How errors are shown: as the default display.
pub fn default_error_display() -> (r: DisplayOptions<Placeholder>)
    ensures
        is_default_display(r),
{
    default_display()
}

/// How the active variant of an enum is shown when nothing else is
/// configured: the default display with a `#ffffff` foreground.
pub fn default_active_display() -> (r: DisplayOptions<Placeholder>)
    ensures
        is_default_active_display(r),
{
    let fg = "#ffffff";
    proof {
        reveal_strlit("#ffffff");
    }
    default_display_with(fg)
}

} // verus!

verus! {

/// Whether every value of a list matches its pattern.
pub trait VecStringRegexEx {
    fn all_match(&self) -> bool;
}

impl VecStringRegexEx for Vec<(String, RegexPattern)> {
    fn all_match(&self) -> (r: bool)
        ensures
            r == forall|i: int| 0 <= i < self@.len() ==> regex_is_match((#[trigger] self@[i]).1.pattern(), self@[i].0@),
    {
        let mut i: usize = 0;
        while i < self.len()
            invariant
                i <= self@.len(),
                forall|j: int| 0 <= j < i ==> regex_is_match((#[trigger] self@[j]).1.pattern(), self@[j].0@),
            decreases self@.len() - i,
        {
            if !self[i].1.is_match(self[i].0.as_str()) {
                return false;
            }
            i += 1;
        }
        true
    }
}

impl VecStringRegexEx for Vec<(Placeholder, RegexPattern)> {
    fn all_match(&self) -> (r: bool)
        ensures
            r == forall|i: int| 0 <= i < self@.len() ==> regex_is_match((#[trigger] self@[i]).1.pattern(), self@[i].0.value@),
    {
        all_match(self)
    }
}

} // verus!

verus! {

/// The whole configuration: bars, blocks, variables and commands. As read,
/// the blocks, variables and default blocks are lists; once defaulted they
/// are maps by name, and the lists are empty.
#[derive(Debug)]
pub struct Config<D> {
    pub bar: Vec<Bar<D>>,
    pub blocks: NameMap<Block<D>>,
    pub vars: NameMap<Var<D>>,
    /// The names of the variables, in the order they are computed.
    pub var_order: Vec<String>,
    pub blocks_vec: Vec<Block<D>>,
    pub vars_vec: Vec<Var<D>>,
    pub commands: Vec<CommandConfig>,
    pub default_block_vec: Vec<DefaultBlock<D>>,
}

/// `r` is the default block `o` with its defaults taken from `base`; its
/// active display falls back on its own display first.
pub open spec fn default_block_defaulted(o: DefaultBlock<Option<Placeholder>>, base: DefaultBlock<Placeholder>, r: DefaultBlock<Placeholder>) -> bool {
    &&& r.name is None
    &&& display_defaulted(o.display, base.display, r.display)
    &&& exists|d: DisplayOptions<Placeholder>| display_defaulted(o.display, base.active_display, d)
        && display_defaulted(o.active_display, d, r.active_display)
}

/// The default block used when nothing is configured.
pub open spec fn is_base_default_block(b: DefaultBlock<Placeholder>) -> bool {
    b.name is None && is_default_display(b.display) && is_default_active_display(b.active_display)
}

/// Every `show_if_matches` expression of the default block is given.
pub open spec fn default_complete(b: DefaultBlock<Option<Placeholder>>) -> bool {
    display_complete(b.display) && display_complete(b.active_display)
}

/// The first default block without a name.
pub open spec fn first_unnamed(v: Seq<DefaultBlock<Option<Placeholder>>>) -> Option<DefaultBlock<Option<Placeholder>>>
    decreases v.len(),
{
    if v.len() == 0 {
        None
    } else if v[0].name is None {
        Some(v[0])
    } else {
        first_unnamed(v.drop_first())
    }
}

/// The last default block with the name `n`.
pub open spec fn last_named(v: Seq<DefaultBlock<Option<Placeholder>>>, n: Seq<char>) -> Option<DefaultBlock<Option<Placeholder>>>
    decreases v.len(),
{
    if v.len() == 0 {
        None
    } else if v.last().name matches Some(s) && s@ == n {
        Some(v.last())
    } else {
        last_named(v.drop_last(), n)
    }
}

/// `nd` is the default of the blocks that name no default block: the first
/// unnamed default block of `v` with the base defaults, or the base
/// defaults when there is none.
pub open spec fn unnamed_default(v: Seq<DefaultBlock<Option<Placeholder>>>, nd: DefaultBlock<Placeholder>) -> bool {
    match first_unnamed(v) {
        Some(b) => exists|base: DefaultBlock<Placeholder>| is_base_default_block(base) && default_block_defaulted(b, base, nd),
        None => is_base_default_block(nd),
    }
}

/// `d` is the default block of a block that inherits from `inherit`: the
/// last default block of that name with `nd` as its defaults, or `nd` itself.
pub open spec fn inherited_default(
    v: Seq<DefaultBlock<Option<Placeholder>>>,
    nd: DefaultBlock<Placeholder>,
    inherit: Option<String>,
    d: DefaultBlock<Placeholder>,
) -> bool {
    match inherit {
        Some(n) => match last_named(v, n@) {
            Some(b) => default_block_defaulted(b, nd, d),
            None => d == nd,
        },
        None => d == nd,
    }
}

/// The blocks of a list by their names.
pub open spec fn named_blocks(s: Seq<Block<Option<Placeholder>>>) -> Seq<(String, Block<Option<Placeholder>>)> {
    s.map_values(|b: Block<Option<Placeholder>>| (block_name(b), b))
}

/// The variables of a list by their names.
pub open spec fn named_vars(s: Seq<Var<Option<Placeholder>>>) -> Seq<(String, Var<Option<Placeholder>>)> {
    s.map_values(|v: Var<Option<Placeholder>>| (v.name, v))
}

/// `r` is the variable `o` with its input defaulted.
pub open spec fn var_defaulted(o: Var<Option<Placeholder>>, r: Var<Placeholder>) -> bool {
    r.name@ == o.name@ && input_defaulted(o.input, r.input)
}

/// `r` is the bar `o` with its defaults.
pub open spec fn bar_defaulted(o: Bar<Option<Placeholder>>, r: Bar<Placeholder>) -> bool {
    &&& r.blocks_left@ == o.blocks_left@
    &&& r.blocks_center@ == o.blocks_center@
    &&& r.blocks_right@ == o.blocks_right@
    &&& r.monitor == o.monitor
    &&& r.height == o.height
    &&& r.position == o.position
    &&& r.margin == o.margin
    &&& match o.background {
        Some(p) => same_placeholder(r.background, p),
        None => is_text(r.background, "#00000000"@),
    }
    &&& r.popup == o.popup
    &&& r.popup_at_edge == o.popup_at_edge
    &&& matches_unwrapped(r.show_if_matches@, o.show_if_matches@)
    &&& r.popup_show_if_some@.len() == 0
}

/// Every `show_if_matches` expression of the configuration is given.
pub open spec fn config_complete(c: Config<Option<Placeholder>>) -> bool {
    &&& forall|i: int, j: int| 0 <= i < c.bar@.len() && 0 <= j < c.bar@[i].show_if_matches@.len()
        ==> (#[trigger] c.bar@[i].show_if_matches@[j]).0 is Some
    &&& forall|i: int| 0 <= i < c.blocks_vec@.len() ==> block_complete(#[trigger] c.blocks_vec@[i])
    &&& forall|i: int| 0 <= i < c.default_block_vec@.len() ==> default_complete(#[trigger] c.default_block_vec@[i])
}

/// The default block of the blocks that name none.
fn unnamed_default_block(v: &Vec<DefaultBlock<Option<Placeholder>>>) -> (r: DefaultBlock<Placeholder>)
    requires
        forall|i: int| 0 <= i < v@.len() ==> default_complete(#[trigger] v@[i]),
    ensures
        unnamed_default(v@, r),
{
    let base = DefaultBlock { name: None, display: default_display(), active_display: default_active_display() };
    let mut i: usize = 0;
    assert(v@.skip(0) == v@);
    while i < v.len()
        invariant
            i <= v@.len(),
            forall|j: int| 0 <= j < v@.len() ==> default_complete(#[trigger] v@[j]),
            first_unnamed(v@) == first_unnamed(v@.skip(i as int)),
            is_base_default_block(base),
        decreases v@.len() - i,
    {
        assert(v@.skip(i as int)[0] == v@[i as int]);
        if v[i].name.is_none() {
            let r = v[i].with_default(&base);
            assert(default_block_defaulted(v@[i as int], base, r));
            return r;
        }
        assert(v@.skip(i as int).drop_first() == v@.skip(i + 1));
        i += 1;
    }
    assert(v@.skip(i as int).len() == 0);
    base
}

/// The named default blocks by name, each with `nd` as its defaults; a
/// later block of a name wins.
fn named_default_blocks(v: &Vec<DefaultBlock<Option<Placeholder>>>, nd: &DefaultBlock<Placeholder>) -> (r: NameMap<DefaultBlock<Placeholder>>)
    requires
        forall|i: int| 0 <= i < v@.len() ==> default_complete(#[trigger] v@[i]),
    ensures
        forall|n: Seq<char>| #[trigger] r@.contains_key(n) == (last_named(v@, n) is Some),
        forall|n: Seq<char>| #[trigger] r@.contains_key(n) ==> default_block_defaulted(last_named(v@, n)->0, *nd, r@[n]),
{
    let mut r: NameMap<DefaultBlock<Placeholder>> = NameMap::new();
    let mut i: usize = 0;
    while i < v.len()
        invariant
            i <= v@.len(),
            forall|j: int| 0 <= j < v@.len() ==> default_complete(#[trigger] v@[j]),
            forall|n: Seq<char>| #[trigger] r@.contains_key(n) == (last_named(v@.take(i as int), n) is Some),
            forall|n: Seq<char>| #[trigger] r@.contains_key(n) ==> default_block_defaulted(last_named(v@.take(i as int), n)->0, *nd, r@[n]),
        decreases v@.len() - i,
    {
        let ghost before = r@;
        let ghost t = v@.take(i + 1);
        assert(t.drop_last() == v@.take(i as int));
        assert(t.last() == v@[i as int]);
        match &v[i].name {
            Some(s) => {
                let b = v[i].with_default(nd);
                r.insert(s.clone(), b);
                assert forall|n: Seq<char>| #[trigger] r@.contains_key(n) == (last_named(t, n) is Some) by {
                    if n != s@ {
                        assert(last_named(t, n) == last_named(v@.take(i as int), n));
                    }
                }
                assert forall|n: Seq<char>| #[trigger] r@.contains_key(n) implies default_block_defaulted(last_named(t, n)->0, *nd, r@[n]) by {
                    if n != s@ {
                        assert(last_named(t, n) == last_named(v@.take(i as int), n));
                        assert(before.contains_key(n));
                    }
                }
            },
            None => {
                assert forall|n: Seq<char>| last_named(t, n) == last_named(v@.take(i as int), n) by {}
            },
        }
        i += 1;
    }
    assert(v@.take(v@.len() as int) == v@);
    r
}

/// The default block of a block that inherits from `inherit`.
fn inherited_default_block<'a>(
    v: &Vec<DefaultBlock<Option<Placeholder>>>,
    named: &'a NameMap<DefaultBlock<Placeholder>>,
    nd: &'a DefaultBlock<Placeholder>,
    inherit: &Option<String>,
) -> (d: &'a DefaultBlock<Placeholder>)
    requires
        forall|n: Seq<char>| #[trigger] named@.contains_key(n) == (last_named(v@, n) is Some),
        forall|n: Seq<char>| #[trigger] named@.contains_key(n) ==> default_block_defaulted(last_named(v@, n)->0, *nd, named@[n]),
    ensures
        inherited_default(v@, *nd, *inherit, *d),
{
    match inherit {
        Some(n) => match named.get(n.as_str()) {
            Some(d) => d,
            None => nd,
        },
        None => nd,
    }
}

} // verus!

verus! {

impl Config<Option<Placeholder>> {
    /// The configuration with its defaults. Each block takes its display
    /// defaults from the default block it inherits from (by name), or from
    /// the first unnamed default block, itself defaulted by the built-in
    /// defaults; a later block or variable of a name wins over an earlier one.
    pub fn with_defaults(self) -> (r: Config<Placeholder>)
        requires
            config_complete(self),
        ensures
            r.bar@.len() == self.bar@.len(),
            forall|i: int| 0 <= i < r.bar@.len() ==> bar_defaulted(self.bar@[i], #[trigger] r.bar@[i]),
            strings_view(r.var_order@) == self.vars_vec@.map_values(|v: Var<Option<Placeholder>>| v.name@),
            r.vars@.dom() == named_map_of(named_vars(self.vars_vec@)).dom(),
            forall|n: Seq<char>| #[trigger] r.vars@.contains_key(n)
                ==> var_defaulted(named_map_of(named_vars(self.vars_vec@))[n], r.vars@[n]),
            r.blocks@.dom() == named_map_of(named_blocks(self.blocks_vec@)).dom(),
            exists|nd: DefaultBlock<Placeholder>| unnamed_default(self.default_block_vec@, nd)
                && forall|n: Seq<char>| #[trigger] r.blocks@.contains_key(n) ==> exists|d: DefaultBlock<Placeholder>|
                    inherited_default(self.default_block_vec@, nd, block_inherit(named_map_of(named_blocks(self.blocks_vec@))[n]), d)
                    && block_defaulted(named_map_of(named_blocks(self.blocks_vec@))[n], d, r.blocks@[n]),
            r.commands@ == self.commands@,
            r.blocks_vec@.len() == 0,
            r.vars_vec@.len() == 0,
            r.default_block_vec@.len() == 0,
    {
        let Config { bar, blocks: _, vars: _, var_order: _, blocks_vec, vars_vec, commands, default_block_vec } = self;
        let ghost dv = default_block_vec@;
        let ghost bv = blocks_vec@;
        let ghost vv = vars_vec@;
        let nd = unnamed_default_block(&default_block_vec);
        let named = named_default_blocks(&default_block_vec, &nd);

        let mut blocks: NameMap<Block<Placeholder>> = NameMap::new();
        let mut rest = blocks_vec;
        let mut i: usize = 0;
        assert(bv.skip(0) == bv);
        assert(named_blocks(bv.take(0)) =~= Seq::<(String, Block<Option<Placeholder>>)>::empty());
        assert(bv.len() == rest.len());
        while rest.len() > 0
            invariant
                i <= bv.len() <= usize::MAX,
                rest@ == bv.skip(i as int),
                forall|j: int| 0 <= j < bv.len() ==> block_complete(#[trigger] bv[j]),
                forall|n: Seq<char>| #[trigger] named@.contains_key(n) == (last_named(dv, n) is Some),
                forall|n: Seq<char>| #[trigger] named@.contains_key(n) ==> default_block_defaulted(last_named(dv, n)->0, nd, named@[n]),
                default_block_vec@ == dv,
                blocks@.dom() == named_map_of(named_blocks(bv.take(i as int))).dom(),
                forall|n: Seq<char>| #[trigger] blocks@.contains_key(n) ==> exists|d: DefaultBlock<Placeholder>|
                    inherited_default(dv, nd, block_inherit(named_map_of(named_blocks(bv.take(i as int)))[n]), d)
                    && block_defaulted(named_map_of(named_blocks(bv.take(i as int)))[n], d, blocks@[n]),
            decreases rest@.len(),
        {
            let ghost before = blocks@;
            let ghost old_map = named_map_of(named_blocks(bv.take(i as int)));
            assert(i < bv.len());
            let b = rest.remove(0);
            assert(b == bv[i as int]);
            assert(bv.skip(i as int).drop_first() == bv.skip(i + 1));
            let d = inherited_default_block(&default_block_vec, &named, &nd, b.inherit());
            let ghost orig = b;
            let (name, nb) = b.with_default_and_name(d);
            blocks.insert(name, nb);
            proof {
                assert(named_blocks(bv.take(i + 1)) =~= named_blocks(bv.take(i as int)).push((block_name(orig), orig)));
                assert(named_blocks(bv.take(i + 1)).drop_last() == named_blocks(bv.take(i as int)));
                let new_map = named_map_of(named_blocks(bv.take(i + 1)));
                assert(new_map == old_map.insert(block_name(orig)@, orig));
                assert(blocks@.dom() =~= new_map.dom());
                assert forall|n: Seq<char>| #[trigger] blocks@.contains_key(n) implies exists|d: DefaultBlock<Placeholder>|
                    inherited_default(dv, nd, block_inherit(new_map[n]), d) && block_defaulted(new_map[n], d, blocks@[n]) by {
                    if n == block_name(orig)@ {
                        assert(inherited_default(dv, nd, block_inherit(new_map[n]), *d));
                    } else {
                        assert(before.contains_key(n));
                        assert(new_map[n] == old_map[n]);
                        assert(blocks@[n] == before[n]);
                    }
                }
            }
            i += 1;
        }
        assert(bv.take(i as int) == bv);

        let mut var_order: Vec<String> = Vec::new();
        let mut vars: NameMap<Var<Placeholder>> = NameMap::new();
        let mut k: usize = 0;
        assert(named_vars(vv.take(0)) =~= Seq::<(String, Var<Option<Placeholder>>)>::empty());
        while k < vars_vec.len()
            invariant
                k <= vv.len(),
                vars_vec@ == vv,
                strings_view(var_order@) == vv.take(k as int).map_values(|v: Var<Option<Placeholder>>| v.name@),
                vars@.dom() == named_map_of(named_vars(vv.take(k as int))).dom(),
                forall|n: Seq<char>| #[trigger] vars@.contains_key(n)
                    ==> var_defaulted(named_map_of(named_vars(vv.take(k as int)))[n], vars@[n]),
            decreases vv.len() - k,
        {
            let ghost before = vars@;
            let ghost old_order = var_order@;
            let v = &vars_vec[k];
            var_order.push(v.name.clone());
            vars.insert(v.name.clone(), v.with_defaults());
            proof {
                assert(vv.take(k + 1).map_values(|v: Var<Option<Placeholder>>| v.name@)
                    =~= vv.take(k as int).map_values(|v: Var<Option<Placeholder>>| v.name@).push(vv[k as int].name@));
                assert(strings_view(var_order@) =~= strings_view(old_order).push(vv[k as int].name@));
                assert(named_vars(vv.take(k + 1)) =~= named_vars(vv.take(k as int)).push((vv[k as int].name, vv[k as int])));
                assert(named_vars(vv.take(k + 1)).drop_last() == named_vars(vv.take(k as int)));
                let old_map = named_map_of(named_vars(vv.take(k as int)));
                let new_map = named_map_of(named_vars(vv.take(k + 1)));
                assert(new_map == old_map.insert(vv[k as int].name@, vv[k as int]));
                assert(vars@.dom() =~= new_map.dom());
                assert forall|n: Seq<char>| #[trigger] vars@.contains_key(n) implies var_defaulted(new_map[n], vars@[n]) by {
                    if n != vv[k as int].name@ {
                        assert(before.contains_key(n));
                    }
                }
            }
            k += 1;
        }
        assert(vv.take(k as int) == vv);

        let mut bars: Vec<Bar<Placeholder>> = Vec::new();
        let mut j: usize = 0;
        while j < bar.len()
            invariant
                j <= bar@.len(),
                forall|x: int, y: int| 0 <= x < bar@.len() && 0 <= y < bar@[x].show_if_matches@.len()
                    ==> (#[trigger] bar@[x].show_if_matches@[y]).0 is Some,
                bars@.len() == j,
                forall|x: int| 0 <= x < j ==> bar_defaulted(bar@[x], #[trigger] bars@[x]),
            decreases bar@.len() - j,
        {
            bars.push(bar[j].with_default());
            j += 1;
        }
        proof {
            assert(unnamed_default(dv, nd));
        }
        Config {
            bar: bars,
            blocks,
            vars,
            var_order,
            blocks_vec: Vec::new(),
            vars_vec: Vec::new(),
            commands,
            default_block_vec: Vec::new(),
        }
    }
}

} // verus!

verus! {

impl Default for Decorations<Placeholder> {
    fn default() -> (r: Self)
        ensures
            empty_placeholder(r.foreground),
            empty_placeholder(r.background),
            empty_placeholder(r.overline_color),
            empty_placeholder(r.underline_color),
            empty_placeholder(r.edgeline_color),
            r.line_width is None,
    {
        Decorations {
            foreground: Placeholder::default(),
            background: Placeholder::default(),
            overline_color: Placeholder::default(),
            underline_color: Placeholder::default(),
            edgeline_color: Placeholder::default(),
            line_width: None,
        }
    }
}

impl Default for DisplayOptions<Placeholder> {
    fn default() -> (r: Self)
        ensures
            empty_placeholder(r.font),
            empty_placeholder(r.popup_value),
            empty_placeholder(r.output_format),
            r.pango_markup is None,
            r.margin is None,
            r.padding is None,
            r.show_if_matches@.len() == 0,
            r.popup_show_if_some@.len() == 0,
            r.popup is None,
    {
        DisplayOptions {
            font: Placeholder::default(),
            popup_value: Placeholder::default(),
            output_format: Placeholder::default(),
            pango_markup: None,
            margin: None,
            padding: None,
            decorations: Decorations::default(),
            hover_decorations: Decorations::default(),
            show_if_matches: Vec::new(),
            popup_show_if_some: Vec::new(),
            popup: None,
        }
    }
}

impl Default for Input<Placeholder> {
    fn default() -> (r: Self)
        ensures
            empty_placeholder(r.value),
            !r.replace_first_match,
            r.replace.0@.len() == 0,
    {
        Input { value: Placeholder::default(), replace_first_match: false, replace: Replace(Vec::new()) }
    }
}

impl Default for EventHandlers<Placeholder> {
    fn default() -> (r: Self)
        ensures
            empty_placeholder(r.on_mouse_left),
            empty_placeholder(r.on_mouse_middle),
            empty_placeholder(r.on_mouse_right),
            empty_placeholder(r.on_scroll_up),
            empty_placeholder(r.on_scroll_down),
    {
        EventHandlers {
            on_mouse_left: Placeholder::default(),
            on_mouse_middle: Placeholder::default(),
            on_mouse_right: Placeholder::default(),
            on_scroll_up: Placeholder::default(),
            on_scroll_down: Placeholder::default(),
        }
    }
}

} // verus!

verus! {

/// One of the handlers of `new` has another value than in `old`.
pub open spec fn handlers_changed(old: EventHandlers<Placeholder>, new: EventHandlers<Placeholder>) -> bool {
    value_changed(old.on_mouse_left, new.on_mouse_left) || value_changed(old.on_mouse_middle, new.on_mouse_middle)
        || value_changed(old.on_mouse_right, new.on_mouse_right) || value_changed(old.on_scroll_up, new.on_scroll_up)
        || value_changed(old.on_scroll_down, new.on_scroll_down)
}

/// Every color of `new` is the one of `old` resolved among `vars`, and the
/// line width is kept.
pub open spec fn decorations_resolved(
    new: Decorations<Placeholder>,
    old: Decorations<Placeholder>,
    vars: Map<Seq<char>, Seq<char>>,
) -> bool {
    &&& resolved_from(new.foreground, old.foreground, vars)
    &&& resolved_from(new.background, old.background, vars)
    &&& resolved_from(new.overline_color, old.overline_color, vars)
    &&& resolved_from(new.underline_color, old.underline_color, vars)
    &&& resolved_from(new.edgeline_color, old.edgeline_color, vars)
    &&& new.line_width == old.line_width
}

/// Every expression of the display options `new` but the output format is
/// the one of `old` resolved among `vars` (what `DisplayOptions::update`
/// does); the rest is kept.
pub open spec fn display_resolved(
    new: DisplayOptions<Placeholder>,
    old: DisplayOptions<Placeholder>,
    vars: Map<Seq<char>, Seq<char>>,
) -> bool {
    &&& resolved_from(new.font, old.font, vars)
    &&& resolved_from(new.popup_value, old.popup_value, vars)
    &&& decorations_resolved(new.decorations, old.decorations, vars)
    &&& decorations_resolved(new.hover_decorations, old.hover_decorations, vars)
    &&& matches_resolved(new.show_if_matches@, old.show_if_matches@, vars)
    &&& all_resolved(new.popup_show_if_some@, old.popup_show_if_some@, vars)
    &&& new.pango_markup == old.pango_markup
    &&& new.margin == old.margin
    &&& new.padding == old.padding
    &&& new.popup == old.popup
}

/// Every handler of `new` is the one of `old` resolved among `vars`.
pub open spec fn handlers_resolved(
    new: EventHandlers<Placeholder>,
    old: EventHandlers<Placeholder>,
    vars: Map<Seq<char>, Seq<char>>,
) -> bool {
    &&& resolved_from(new.on_mouse_left, old.on_mouse_left, vars)
    &&& resolved_from(new.on_mouse_middle, old.on_mouse_middle, vars)
    &&& resolved_from(new.on_mouse_right, old.on_mouse_right, vars)
    &&& resolved_from(new.on_scroll_up, old.on_scroll_up, vars)
    &&& resolved_from(new.on_scroll_down, old.on_scroll_down, vars)
}

/// One of the resolved expressions of `new` has another value than in `old`
/// (what `DisplayOptions::update` reports).
pub open spec fn display_changed(old: DisplayOptions<Placeholder>, new: DisplayOptions<Placeholder>) -> bool {
    value_changed(old.font, new.font) || value_changed(old.popup_value, new.popup_value)
        || value_changed(old.decorations.foreground, new.decorations.foreground)
        || value_changed(old.decorations.background, new.decorations.background)
        || value_changed(old.decorations.overline_color, new.decorations.overline_color)
        || value_changed(old.decorations.underline_color, new.decorations.underline_color)
        || value_changed(old.decorations.edgeline_color, new.decorations.edgeline_color)
        || value_changed(old.hover_decorations.foreground, new.hover_decorations.foreground)
        || value_changed(old.hover_decorations.background, new.hover_decorations.background)
        || value_changed(old.hover_decorations.overline_color, new.hover_decorations.overline_color)
        || value_changed(old.hover_decorations.underline_color, new.hover_decorations.underline_color)
        || value_changed(old.hover_decorations.edgeline_color, new.hover_decorations.edgeline_color)
        || matches_changed(new.show_if_matches@, old.show_if_matches@)
        || any_changed(new.popup_show_if_some@, old.popup_show_if_some@)
}

/// The value an input computes among `vars`: its expression resolved, then
/// rewritten by its replacements, their texts resolved too.
pub open spec fn input_value(i: Input<Placeholder>, vars: Map<Seq<char>, Seq<char>>) -> Seq<char> {
    spec_replace_apply(
        i.replace.0@.map_values(|p: (RegexPattern, Placeholder)| (p.0.pattern(), spec_resolve(p.1.tokens_view(), vars))),
        i.replace_first_match,
        spec_resolve(i.value.tokens_view(), vars),
    )
}

/// The replacements of `new` are those of `old` resolved among `vars`, so
/// that `new` computes what `old` does.
pub proof fn lemma_input_value(new: Input<Placeholder>, old: Input<Placeholder>, vars: Map<Seq<char>, Seq<char>>)
    requires
        replace_resolved(new.replace.0@, old.replace.0@, vars),
    ensures
        replace_pairs(new.replace.0@) == old.replace.0@.map_values(
            |p: (RegexPattern, Placeholder)| (p.0.pattern(), spec_resolve(p.1.tokens_view(), vars)),
        ),
{
    assert(replace_pairs(new.replace.0@) =~= old.replace.0@.map_values(
        |p: (RegexPattern, Placeholder)| (p.0.pattern(), spec_resolve(p.1.tokens_view(), vars)),
    ));
}

} // verus!
