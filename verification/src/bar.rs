//! What the bar decides without drawing: which parts to redraw, which
//! popups to show, when it is visible, and what a click runs.

use vstd::prelude::*;
use crate::config::{
    all_match, all_resolved, any_non_blank, any_non_empty, handlers_changed, input_value, lemma_input_value,
    matches_resolved, update_all, update_matches, Bar, DisplayOptions, EnumBlock, EventHandlers, PopupMode, SeparatorType,
    TextBlock,
};
use crate::parse::{
    value_changed,
    resolved_from, same_placeholder, spec_resolve, ContextWithValue, ParseError, Placeholder, PlaceholderContext,
};
use crate::pattern::regex_is_match;
use crate::text::{is_blank, owned};
use crate::vars::NameSet;

verus! {

/// A clickable area of a bar, in pixels.
#[derive(Debug, Clone, Copy, PartialEq, Eq, Structural)]
pub struct InputRect {
    pub x: i32,
    pub y: i32,
    pub width: i32,
    pub height: i32,
}

/// A mouse button, or a scroll direction.
#[derive(Debug, Clone, Copy, PartialEq, Eq, Structural)]
pub enum Button {
    Left,
    Right,
    Middle,
    ScrollUp,
    ScrollDown,
}

/// What must be drawn again.
#[derive(Debug)]
pub enum RedrawScope {
    /// Everything.
    All,
    /// The blocks of these names.
    Partial(NameSet),
    /// Nothing.
    Nothing,
}

/// What a redraw scope stands for.
pub enum RedrawScopeV {
    All,
    Partial(Set<Seq<char>>),
    Nothing,
}

impl View for RedrawScope {
    type V = RedrawScopeV;

    open spec fn view(&self) -> RedrawScopeV {
        match self {
            RedrawScope::All => RedrawScopeV::All,
            RedrawScope::Partial(s) => RedrawScopeV::Partial(s@),
            RedrawScope::Nothing => RedrawScopeV::Nothing,
        }
    }
}

/// Both scopes together: everything when either is everything, the union
/// of the blocks of the partial ones, nothing when both are nothing.
pub open spec fn spec_combine(a: RedrawScopeV, b: RedrawScopeV) -> RedrawScopeV {
    match (a, b) {
        (RedrawScopeV::All, _) => RedrawScopeV::All,
        (_, RedrawScopeV::All) => RedrawScopeV::All,
        (RedrawScopeV::Partial(x), RedrawScopeV::Nothing) => RedrawScopeV::Partial(x),
        (RedrawScopeV::Nothing, RedrawScopeV::Partial(y)) => RedrawScopeV::Partial(y),
        (RedrawScopeV::Partial(x), RedrawScopeV::Partial(y)) => RedrawScopeV::Partial(x.union(y)),
        (RedrawScopeV::Nothing, RedrawScopeV::Nothing) => RedrawScopeV::Nothing,
    }
}

impl RedrawScope {
    /// Both scopes together (see `spec_combine`).
    pub fn combine(self, other: Self) -> (r: Self)
        ensures
            r@ == spec_combine(self@, other@),
    {
        match (self, other) {
            (RedrawScope::All, _) => RedrawScope::All,
            (_, RedrawScope::All) => RedrawScope::All,
            (RedrawScope::Partial(a), RedrawScope::Nothing) => RedrawScope::Partial(a),
            (RedrawScope::Nothing, RedrawScope::Partial(b)) => RedrawScope::Partial(b),
            (RedrawScope::Partial(a), RedrawScope::Partial(b)) => {
                let mut a = a;
                a.extend(b);
                RedrawScope::Partial(a)
            },
            (RedrawScope::Nothing, RedrawScope::Nothing) => RedrawScope::Nothing,
        }
    }

    /// A copy.
    pub fn clone(&self) -> (r: Self)
        ensures
            r@ == self@,
    {
        match self {
            RedrawScope::All => RedrawScope::All,
            RedrawScope::Partial(s) => RedrawScope::Partial(s.clone()),
            RedrawScope::Nothing => RedrawScope::Nothing,
        }
    }
}

/// Combining scopes does not depend on their order.
pub proof fn lemma_combine_commutative(a: RedrawScopeV, b: RedrawScopeV)
    ensures
        spec_combine(a, b) == spec_combine(b, a),
{
    if let (RedrawScopeV::Partial(x), RedrawScopeV::Partial(y)) = (a, b) {
        assert(x.union(y) =~= y.union(x));
    }
}

/// Combining scopes does not depend on how they are grouped.
pub proof fn lemma_combine_associative(a: RedrawScopeV, b: RedrawScopeV, c: RedrawScopeV)
    ensures
        spec_combine(spec_combine(a, b), c) == spec_combine(a, spec_combine(b, c)),
{
    if let (RedrawScopeV::Partial(x), RedrawScopeV::Partial(y), RedrawScopeV::Partial(z)) = (a, b, c) {
        assert(x.union(y).union(z) =~= x.union(y.union(z)));
    }
}

/// Everything stays everything, and nothing changes nothing.
pub proof fn lemma_combine_all_and_none(a: RedrawScopeV)
    ensures
        spec_combine(RedrawScopeV::All, a) == RedrawScopeV::All,
        spec_combine(a, RedrawScopeV::All) == RedrawScopeV::All,
        spec_combine(RedrawScopeV::Nothing, a) == a,
        spec_combine(a, RedrawScopeV::Nothing) == a,
{
}

/// For each popup mode, the blocks whose popups asked for it.
#[derive(Debug)]
pub struct PopupSets {
    pub bar: Option<NameSet>,
    pub partial_bar: Option<NameSet>,
    pub block: Option<NameSet>,
}

/// The field of a mode.
pub open spec fn popup_set_of(p: PopupSets, m: PopupMode) -> Option<NameSet> {
    match m {
        PopupMode::Bar => p.bar,
        PopupMode::PartialBar => p.partial_bar,
        PopupMode::Block => p.block,
    }
}

impl View for PopupSets {
    type V = Map<PopupMode, Set<Seq<char>>>;

    open spec fn view(&self) -> Map<PopupMode, Set<Seq<char>>> {
        Map::new(|m: PopupMode| popup_set_of(*self, m) is Some, |m: PopupMode| popup_set_of(*self, m)->0@)
    }
}

impl PopupSets {
    /// No mode asked for.
    pub fn new() -> (r: Self)
        ensures
            r@ == Map::<PopupMode, Set<Seq<char>>>::empty(),
    {
        let r = PopupSets { bar: None, partial_bar: None, block: None };
        assert(r@ =~= Map::<PopupMode, Set<Seq<char>>>::empty());
        r
    }

    /// Sets the blocks of a mode, replacing those it had.
    pub fn insert(&mut self, mode: PopupMode, blocks: NameSet)
        ensures
            final(self)@ == old(self)@.insert(mode, blocks@),
    {
        let ghost b = blocks@;
        match mode {
            PopupMode::Bar => self.bar = Some(blocks),
            PopupMode::PartialBar => self.partial_bar = Some(blocks),
            PopupMode::Block => self.block = Some(blocks),
        }
        assert(self@ =~= old(self)@.insert(mode, b));
    }

    /// Takes the modes of `other`, each replacing the blocks this one had
    /// for it (as `HashMap::extend` does).
    pub fn extend(&mut self, other: PopupSets)
        ensures
            final(self)@ == old(self)@.union_prefer_right(other@),
    {
        let ghost o = other@;
        if other.bar.is_some() {
            self.bar = other.bar;
        }
        if other.partial_bar.is_some() {
            self.partial_bar = other.partial_bar;
        }
        if other.block.is_some() {
            self.block = other.block;
        }
        assert(self@ =~= old(self)@.union_prefer_right(o));
    }
}

/// What an update of the blocks asks for.
#[derive(Debug)]
pub struct BlockUpdates {
    pub popup: PopupSets,
    pub redraw: RedrawScope,
}

impl BlockUpdates {
    /// Takes in another update: its popups replace those of the same
    /// modes, and the redraw scopes are combined.
    pub fn merge(&mut self, other: Self)
        ensures
            final(self).popup@ == old(self).popup@.union_prefer_right(other.popup@),
            final(self).redraw@ == spec_combine(old(self).redraw@, other.redraw@),
    {
        self.popup.extend(other.popup);
        let mut redraw = RedrawScope::Nothing;
        std::mem::swap(&mut redraw, &mut self.redraw);
        self.redraw = redraw.combine(other.redraw);
    }
}

/// What an update of a bar asks for.
#[derive(Debug)]
pub struct BarUpdates {
    pub block_updates: BlockUpdates,
    /// Whether the bar's expressions say it shows, if they say anything.
    pub visible_from_vars: Option<bool>,
}

/// Whether a bar shows, from what its patterns and its popup expressions
/// say (each `None` when there are none): both must agree to show it.
pub open spec fn spec_visible_from_vars(matches: Option<bool>, popup: Option<bool>) -> Option<bool> {
    match (matches, popup) {
        (Some(m), Some(p)) => Some(m && p),
        (Some(m), None) => Some(m),
        (None, Some(p)) => Some(p),
        (None, None) => None,
    }
}

/// Whether a bar shows, from what its patterns and its popup expressions say.
pub fn visible_from_vars(matches: Option<bool>, popup: Option<bool>) -> (r: Option<bool>)
    ensures
        r == spec_visible_from_vars(matches, popup),
{
    match (matches, popup) {
        (Some(m), Some(p)) => Some(m && p),
        (Some(m), None) => Some(m),
        (None, Some(p)) => Some(p),
        (None, None) => None,
    }
}

/// Whether the bar shows, as its expressions say: every pattern matches its
/// value (when it has patterns) and some popup expression is not blank
/// (when it has popup expressions).
pub open spec fn bar_visible(bar: Bar<Placeholder>) -> Option<bool> {
    spec_visible_from_vars(
        if bar.show_if_matches@.len() == 0 {
            None
        } else {
            Some(forall|i: int| 0 <= i < bar.show_if_matches@.len() ==> regex_is_match(
                (#[trigger] bar.show_if_matches@[i]).1.pattern(),
                bar.show_if_matches@[i].0.value@,
            ))
        },
        if bar.popup_show_if_some@.len() == 0 {
            None
        } else {
            Some(any_non_blank(bar.popup_show_if_some@))
        },
    )
}

/// A bar shows only when everything that decides says so: it is hidden as
/// soon as either its patterns or its popup expressions say no, shown when
/// those that decide all say yes, and undecided when neither decides.
pub proof fn lemma_visible_needs_every_condition(matches: Option<bool>, popup: Option<bool>)
    ensures
        matches == Some(false) || popup == Some(false) ==> spec_visible_from_vars(matches, popup) == Some(false),
        spec_visible_from_vars(matches, popup) == Some(true) <==> (matches != Some(false) && popup != Some(false)
            && (matches is Some || popup is Some)),
        spec_visible_from_vars(matches, popup) is None <==> (matches is None && popup is None),
{
}

/// A bar with patterns and popup expressions shows exactly when every
/// pattern matches its value and some popup expression is not blank; one
/// pattern that fails hides it, whatever the popup expressions say.
pub proof fn lemma_bar_shown_only_if_patterns_match(bar: Bar<Placeholder>)
    requires
        bar.show_if_matches@.len() > 0,
        bar.popup_show_if_some@.len() > 0,
    ensures
        bar_visible(bar) == Some(
            (forall|i: int| 0 <= i < bar.show_if_matches@.len() ==> regex_is_match(
                (#[trigger] bar.show_if_matches@[i]).1.pattern(),
                bar.show_if_matches@[i].0.value@,
            )) && (exists|i: int| 0 <= i < bar.popup_show_if_some@.len() && !is_blank(
                (#[trigger] bar.popup_show_if_some@[i]).value@,
            )),
        ),
        (exists|i: int| 0 <= i < bar.show_if_matches@.len() && !regex_is_match(
            (#[trigger] bar.show_if_matches@[i]).1.pattern(),
            bar.show_if_matches@[i].0.value@,
        )) ==> bar_visible(bar) == Some(false),
{
}

/// Resolves the bar's background, its pattern expressions and its popup
/// expressions among `vars`, and tells whether the bar shows (see `bar_visible`).
pub fn update_bar<C: PlaceholderContext>(bar: &mut Bar<Placeholder>, vars: &C) -> (r: Result<Option<bool>, ParseError>)
    ensures
        resolved_from(final(bar).background, old(bar).background, vars.ctx_vars()),
        matches_resolved(final(bar).show_if_matches@, old(bar).show_if_matches@, vars.ctx_vars()),
        all_resolved(final(bar).popup_show_if_some@, old(bar).popup_show_if_some@, vars.ctx_vars()),
        final(bar).blocks_left == old(bar).blocks_left,
        final(bar).blocks_center == old(bar).blocks_center,
        final(bar).blocks_right == old(bar).blocks_right,
        final(bar).monitor == old(bar).monitor,
        final(bar).height == old(bar).height,
        final(bar).position == old(bar).position,
        final(bar).margin == old(bar).margin,
        final(bar).popup == old(bar).popup,
        final(bar).popup_at_edge == old(bar).popup_at_edge,
        r == Ok::<Option<bool>, ParseError>(bar_visible(*final(bar))),
{
    let _ = bar.background.update(vars);
    let _ = update_matches(&mut bar.show_if_matches, vars);
    let _ = update_all(&mut bar.popup_show_if_some, vars);
    let matches = if bar.show_if_matches.len() == 0 {
        None
    } else {
        Some(all_match(&bar.show_if_matches))
    };
    let popup = if bar.popup_show_if_some.len() == 0 {
        None
    } else {
        Some(any_non_empty(&bar.popup_show_if_some))
    };
    Ok(visible_from_vars(matches, popup))
}

/// The handler of a button.
pub open spec fn handler_of(h: EventHandlers<Placeholder>, button: Button) -> Placeholder {
    match button {
        Button::Left => h.on_mouse_left,
        Button::Middle => h.on_mouse_middle,
        Button::Right => h.on_mouse_right,
        Button::ScrollUp => h.on_scroll_up,
        Button::ScrollDown => h.on_scroll_down,
    }
}

/// The environment of a command run on a click: `extra`, then `BLOCK_NAME`
/// and `BLOCK_VALUE`.
pub open spec fn event_envs(extra: Seq<(String, String)>, name: Seq<char>, value: Seq<char>) -> Seq<(Seq<char>, Seq<char>)> {
    extra.map_values(|p: (String, String)| (p.0@, p.1@))
        + seq![
            (seq!['B', 'L', 'O', 'C', 'K', '_', 'N', 'A', 'M', 'E'], name),
            (seq!['B', 'L', 'O', 'C', 'K', '_', 'V', 'A', 'L', 'U', 'E'], value),
        ]
}

/// The command that a click on a block runs, with its environment: the
/// handler of the button, unless it is blank.
pub fn block_event_command(
    event_handlers: &EventHandlers<Placeholder>,
    button: Button,
    name: &str,
    value: &str,
    extra_envs: Vec<(String, String)>,
) -> (r: Option<(String, Vec<(String, String)>)>)
    ensures
        r is None <==> is_blank(handler_of(*event_handlers, button).value@),
        r matches Some((c, envs)) ==> c@ == handler_of(*event_handlers, button).value@
            && envs@.map_values(|p: (String, String)| (p.0@, p.1@)) == event_envs(extra_envs@, name@, value@),
{
    let command = match button {
        Button::Left => &event_handlers.on_mouse_left,
        Button::Middle => &event_handlers.on_mouse_middle,
        Button::Right => &event_handlers.on_mouse_right,
        Button::ScrollUp => &event_handlers.on_scroll_up,
        Button::ScrollDown => &event_handlers.on_scroll_down,
    };
    if crate::text::blank(command.value.as_str()) {
        return None;
    }
    let ghost extra = extra_envs@;
    let mut envs = extra_envs;
    let n = "BLOCK_NAME";
    let v = "BLOCK_VALUE";
    proof {
        reveal_strlit("BLOCK_NAME");
        reveal_strlit("BLOCK_VALUE");
        assert(n@ =~= seq!['B', 'L', 'O', 'C', 'K', '_', 'N', 'A', 'M', 'E']);
        assert(v@ =~= seq!['B', 'L', 'O', 'C', 'K', '_', 'V', 'A', 'L', 'U', 'E']);
    }
    envs.push((owned(n), owned(name)));
    envs.push((owned(v), owned(value)));
    assert(envs@.map_values(|p: (String, String)| (p.0@, p.1@)) =~= event_envs(extra, name@, value@));
    Some((command.value.clone(), envs))
}

} // verus!

verus! {

/// Whether a block shows: every pattern of its display matches its value,
/// and its popup expressions, if they decide, say so.
pub open spec fn spec_block_visible(d: DisplayOptions<Placeholder>) -> bool {
    (forall|i: int| 0 <= i < d.show_if_matches@.len() ==> regex_is_match(
        (#[trigger] d.show_if_matches@[i]).1.pattern(),
        d.show_if_matches@[i].0.value@,
    )) && match d.popup_visible_spec() {
        Some(v) => v,
        None => true,
    }
}

impl DisplayOptions<Placeholder> {
    /// What `popup_visible` gives.
    pub open spec fn popup_visible_spec(&self) -> Option<bool> {
        if self.popup is None || self.popup_show_if_some@.len() == 0 {
            None
        } else {
            Some(any_non_blank(self.popup_show_if_some@))
        }
    }
}

/// Whether a block with these display options shows (see `spec_block_visible`).
pub fn block_visible(display: &DisplayOptions<Placeholder>) -> (r: bool)
    ensures
        r == spec_block_visible(*display),
{
    let matches_ok = display.all_match();
    let popup_ok = match display.popup_visible() {
        Some(v) => v,
        None => true,
    };
    matches_ok && popup_ok
}

/// Resolves a text block among `vars`: its handlers, its display, its
/// input, then its output format with the input's value as `value`; tells
/// whether anything changed.
pub fn update_text_block<C: PlaceholderContext>(block: &mut TextBlock<Placeholder>, vars: &C) -> (r: Result<bool, ParseError>)
    ensures
        final(block).input.value.value@ == input_value(old(block).input, vars.ctx_vars()),
        final(block).display.output_format.value@ == spec_resolve(
            old(block).display.output_format.tokens_view(),
            vars.ctx_vars().insert(crate::parse::value_name(), final(block).input.value.value@),
        ),
        final(block).display.output_format.tokens_view() == old(block).display.output_format.tokens_view(),
        crate::config::display_resolved(final(block).display, old(block).display, vars.ctx_vars()),
        crate::config::handlers_resolved(final(block).event_handlers, old(block).event_handlers, vars.ctx_vars()),
        crate::config::replace_resolved(final(block).input.replace.0@, old(block).input.replace.0@, vars.ctx_vars()),
        final(block).input.value.tokens_view() == old(block).input.value.tokens_view(),
        final(block).input.replace_first_match == old(block).input.replace_first_match,
        final(block).name == old(block).name,
        final(block).inherit == old(block).inherit,
        final(block).separator_type == old(block).separator_type,
        final(block).separator_radius == old(block).separator_radius,
        r matches Ok(changed) && changed == (handlers_changed(old(block).event_handlers, final(block).event_handlers)
            || crate::config::display_changed(old(block).display, final(block).display)
            || old(block).input.value.value@ != final(block).input.value.value@
            || old(block).display.output_format.value@ != final(block).display.output_format.value@),
{
    let ghost input0 = block.input;
    let ghost display0 = block.display;
    let a = block.event_handlers.update(vars);
    let b = block.display.update(vars);
    let c = block.input.update(vars);
    proof {
        lemma_input_value(block.input, input0, vars.ctx_vars());
    }
    let ghost display1 = block.display;
    let value = block.input.value.value.clone();
    let ctx = ContextWithValue { vars, value: &value };
    let d = block.display.output_format.update(&ctx);
    let a = match a { Ok(x) => x, Err(_) => false };
    let b = match b { Ok(x) => x, Err(_) => false };
    let c = match c { Ok(x) => x, Err(_) => false };
    let d = match d { Ok(x) => x, Err(_) => false };
    proof {
        assert(same_placeholder(display1.output_format, display0.output_format));
    }
    Ok(a || b || c || d)
}

/// What became of one block in an update of its group.
#[derive(Debug)]
pub struct BlockOutcome {
    pub name: String,
    /// The block's popup mode, if it has a popup.
    pub popup: Option<PopupMode>,
    /// Its popup value before and after the update.
    pub old_popup_value: String,
    pub new_popup_value: String,
    /// Something it shows changed.
    pub updated: bool,
    /// Whether it showed before and after the update.
    pub old_visible: bool,
    pub new_visible: bool,
}

/// A block with a popup pops up when its popup value changed, or, with an
/// empty popup value, when anything it shows changed.
pub open spec fn popped_up(o: BlockOutcome) -> bool {
    if o.new_popup_value@.len() > 0 {
        o.old_popup_value@ != o.new_popup_value@
    } else {
        o.updated
    }
}

/// The names of the outcomes that satisfy `f`.
pub open spec fn outcome_names(s: Seq<BlockOutcome>, f: spec_fn(BlockOutcome) -> bool) -> Set<Seq<char>> {
    Set::new(|n: Seq<char>| exists|i: int| 0 <= i < s.len() && f(s[i]) && s[i].name@ == n)
}

impl PopupSets {
    /// Adds a block to the blocks of a mode.
    pub fn add(&mut self, mode: PopupMode, name: String)
        ensures
            final(self)@ == old(self)@.insert(
                mode,
                (if old(self)@.contains_key(mode) { old(self)@[mode] } else { Set::<Seq<char>>::empty() }).insert(name@),
            ),
    {
        let ghost n = name@;
        let slot = match mode {
            PopupMode::Bar => &mut self.bar,
            PopupMode::PartialBar => &mut self.partial_bar,
            PopupMode::Block => &mut self.block,
        };
        match slot {
            Some(set) => set.insert(name),
            None => {
                let mut set = NameSet::new();
                set.insert(name);
                *slot = Some(set);
            },
        }
        assert(self@ =~= old(self)@.insert(
            mode,
            (if old(self)@.contains_key(mode) { old(self)@[mode] } else { Set::<Seq<char>>::empty() }).insert(n),
        ));
    }
}

/// What an update of a group of blocks asks for: each block that popped up
/// under its mode; redrawing everything when a block's visibility changed,
/// else the blocks that changed, else nothing.
pub fn group_updates(outcomes: &Vec<BlockOutcome>) -> (r: BlockUpdates)
    ensures
        forall|m: PopupMode| #[trigger] r.popup@.contains_key(m) ==> r.popup@[m] == outcome_names(
            outcomes@,
            |o: BlockOutcome| o.popup == Some(m) && popped_up(o),
        ),
        forall|m: PopupMode| !(#[trigger] r.popup@.contains_key(m)) ==> outcome_names(
            outcomes@,
            |o: BlockOutcome| o.popup == Some(m) && popped_up(o),
        ) == Set::<Seq<char>>::empty(),
        r.redraw@ == if exists|i: int| 0 <= i < outcomes@.len() && (#[trigger] outcomes@[i]).old_visible != outcomes@[i].new_visible {
            RedrawScopeV::All
        } else if outcome_names(outcomes@, |o: BlockOutcome| o.updated) == Set::<Seq<char>>::empty() {
            RedrawScopeV::Nothing
        } else {
            RedrawScopeV::Partial(outcome_names(outcomes@, |o: BlockOutcome| o.updated))
        },
{
    let mut popup = PopupSets::new();
    let mut updated = NameSet::new();
    let mut visibility_changed = false;
    let mut i: usize = 0;
    let ghost s = outcomes@;
    while i < outcomes.len()
        invariant
            i <= s.len(),
            s == outcomes@,
            forall|m: PopupMode| #[trigger] popup@.contains_key(m) ==> popup@[m] == outcome_names(
                s.take(i as int),
                |o: BlockOutcome| o.popup == Some(m) && popped_up(o),
            ),
            forall|m: PopupMode| !(#[trigger] popup@.contains_key(m)) ==> outcome_names(
                s.take(i as int),
                |o: BlockOutcome| o.popup == Some(m) && popped_up(o),
            ) == Set::<Seq<char>>::empty(),
            updated@ == outcome_names(s.take(i as int), |o: BlockOutcome| o.updated),
            visibility_changed == exists|j: int| 0 <= j < i && (#[trigger] s[j]).old_visible != s[j].new_visible,
        decreases s.len() - i,
    {
        let o = &outcomes[i];
        let ghost t0 = s.take(i as int);
        let ghost t1 = s.take(i + 1);
        assert(t1 == t0.push(*o));
        let ghost before_popup = popup@;
        let ghost before_updated = updated@;
        let has_value = crate::text::chars_of(o.new_popup_value.as_str()).len() > 0;
        let popped = if has_value {
            !crate::text::str_eq(o.old_popup_value.as_str(), o.new_popup_value.as_str())
        } else {
            o.updated
        };
        match o.popup {
            Some(mode) => {
                if popped {
                    popup.add(mode, o.name.clone());
                }
            },
            None => {},
        }
        if o.updated {
            updated.insert(o.name.clone());
        }
        if o.old_visible != o.new_visible {
            visibility_changed = true;
        }
        proof {
            assert forall|f: spec_fn(BlockOutcome) -> bool|
                #![trigger outcome_names(t1, f)]
                outcome_names(t1, f) == (if f(*o) { outcome_names(t0, f).insert(o.name@) } else { outcome_names(t0, f) }) by {
                assert forall|n: Seq<char>| outcome_names(t1, f).contains(n) == (if f(*o) { outcome_names(t0, f).insert(o.name@) } else { outcome_names(t0, f) }).contains(n) by {
                    if outcome_names(t1, f).contains(n) {
                        let j = choose|j: int| 0 <= j < t1.len() && f(t1[j]) && t1[j].name@ == n;
                        if j < i {
                            assert(t0[j] == t1[j]);
                        }
                    }
                    if outcome_names(t0, f).contains(n) {
                        let j = choose|j: int| 0 <= j < t0.len() && f(t0[j]) && t0[j].name@ == n;
                        assert(t1[j] == t0[j]);
                    }
                    if f(*o) && n == o.name@ {
                        assert(t1[i as int] == *o);
                    }
                }
                assert(outcome_names(t1, f) =~= (if f(*o) { outcome_names(t0, f).insert(o.name@) } else { outcome_names(t0, f) }));
            }
            assert(popped == popped_up(*o));
            assert forall|m: PopupMode| #[trigger] popup@.contains_key(m) implies popup@[m] == outcome_names(
                t1,
                |x: BlockOutcome| x.popup == Some(m) && popped_up(x),
            ) by {
                let f = |x: BlockOutcome| x.popup == Some(m) && popped_up(x);
                assert(outcome_names(t1, f) == (if f(*o) { outcome_names(t0, f).insert(o.name@) } else { outcome_names(t0, f) }));
                if !before_popup.contains_key(m) {
                    assert(outcome_names(t0, f) == Set::<Seq<char>>::empty());
                }
            }
            assert forall|m: PopupMode| !(#[trigger] popup@.contains_key(m)) implies outcome_names(
                t1,
                |x: BlockOutcome| x.popup == Some(m) && popped_up(x),
            ) == Set::<Seq<char>>::empty() by {
                let f = |x: BlockOutcome| x.popup == Some(m) && popped_up(x);
                assert(outcome_names(t1, f) == (if f(*o) { outcome_names(t0, f).insert(o.name@) } else { outcome_names(t0, f) }));
            }
            let g = |x: BlockOutcome| x.updated;
            assert(outcome_names(t1, g) == (if g(*o) { outcome_names(t0, g).insert(o.name@) } else { outcome_names(t0, g) }));
            assert(visibility_changed == exists|j: int| 0 <= j < i + 1 && (#[trigger] s[j]).old_visible != s[j].new_visible);
        }
        i += 1;
    }
    assert(s.take(i as int) == s);
    let redraw = if visibility_changed {
        RedrawScope::All
    } else if updated.is_empty() {
        RedrawScope::Nothing
    } else {
        RedrawScope::Partial(updated)
    };
    BlockUpdates { popup, redraw }
}

} // verus!

verus! {

/// The separator of an enum's variants, `,` unless configured.
pub open spec fn enum_separator_spec(b: EnumBlock<Placeholder>) -> Seq<char> {
    match b.enum_separator {
        Some(s) => s@,
        None => seq![','],
    }
}

/// The index of the active variant: `0` when the value is blank, else the
/// value read as a number (`None` when it is none, where the bar stops).
pub open spec fn spec_active_index(active: Seq<char>) -> Option<usize> {
    if is_blank(active) {
        Some(0)
    } else {
        crate::decimal::spec_parse_usize(active)
    }
}

/// The index of the active variant (see `spec_active_index`).
pub fn active_index(active: &str) -> (r: Option<usize>)
    ensures
        r == spec_active_index(active@),
{
    if crate::text::blank(active) {
        Some(0)
    } else {
        crate::decimal::parse_usize(active)
    }
}

/// The variants of an enum block after an update, the active one, and
/// whether its variants, handlers or active value changed.
#[derive(Debug)]
pub struct EnumUpdate {
    pub variants: Vec<String>,
    pub active: Option<usize>,
    pub updated: bool,
}

/// Resolves an enum block among `vars`: its variants are split at the
/// separator and each goes through the block's input as `value`; the active
/// value gives the active index.
pub fn update_enum_block<C: PlaceholderContext>(block: &mut EnumBlock<Placeholder>, vars: &C) -> (r: EnumUpdate)
    ensures
        resolved_from(final(block).variants, old(block).variants, vars.ctx_vars()),
        resolved_from(final(block).active, old(block).active, vars.ctx_vars()),
        ({
            let pieces = crate::text::split_str(final(block).variants.value@, enum_separator_spec(*old(block)));
            &&& r.variants@.len() == pieces.len()
            &&& forall|i: int| 0 <= i < pieces.len() ==> (#[trigger] r.variants@[i])@ == input_value(
                old(block).input,
                vars.ctx_vars().insert(crate::parse::value_name(), pieces[i]),
            )
        }),
        r.active == spec_active_index(final(block).active.value@),
        r.updated == (value_changed(old(block).variants, final(block).variants)
            || handlers_changed(old(block).event_handlers, final(block).event_handlers)
            || value_changed(old(block).active, final(block).active)),
        final(block).name == old(block).name,
        final(block).enum_separator == old(block).enum_separator,
{
    let a = block.variants.update(vars);
    let b = block.event_handlers.update(vars);
    let a = match a { Ok(x) => x, Err(_) => false };
    let b = match b { Ok(x) => x, Err(_) => false };
    let sep = match &block.enum_separator {
        Some(s) => s.clone(),
        None => crate::text::owned(","),
    };
    proof {
        reveal_strlit(",");
        assert(sep@ == enum_separator_spec(*old(block)));
    }
    let pieces = crate::text::split_str_on(block.variants.value.as_str(), sep.as_str());
    let ghost split = crate::text::split_str(block.variants.value@, enum_separator_spec(*old(block)));
    assert(crate::text::strings_view(pieces@) == split);
    let ghost input0 = block.input;
    let mut variants: Vec<String> = Vec::new();
    let mut i: usize = 0;
    while i < pieces.len()
        invariant
            i <= pieces@.len(),
            variants@.len() == i,
            block.input.value.tokens_view() == input0.value.tokens_view(),
            block.input.replace_first_match == input0.replace_first_match,
            block.input.replace.0@.len() == input0.replace.0@.len(),
            forall|j: int| 0 <= j < block.input.replace.0@.len() ==> (#[trigger] block.input.replace.0@[j]).0.pattern() == input0.replace.0@[j].0.pattern()
                && block.input.replace.0@[j].1.tokens_view() == input0.replace.0@[j].1.tokens_view(),
            forall|j: int| 0 <= j < i ==> (#[trigger] variants@[j])@ == input_value(
                input0,
                vars.ctx_vars().insert(crate::parse::value_name(), pieces@[j]@),
            ),
            block.name == old(block).name,
            block.enum_separator == old(block).enum_separator,
            resolved_from(block.variants, old(block).variants, vars.ctx_vars()),
            block.active == old(block).active,
            resolved_from(block.event_handlers.on_mouse_left, old(block).event_handlers.on_mouse_left, vars.ctx_vars()),
            a == value_changed(old(block).variants, block.variants),
            b == handlers_changed(old(block).event_handlers, block.event_handlers),
        decreases pieces@.len() - i,
    {
        let ghost before = block.input;
        let ctx = ContextWithValue { vars, value: &pieces[i] };
        let _ = block.input.update(&ctx);
        proof {
            lemma_input_value(block.input, before, ctx.ctx_vars());
            assert(before.replace.0@.map_values(|p: (crate::pattern::RegexPattern, Placeholder)| (p.0.pattern(), spec_resolve(p.1.tokens_view(), ctx.ctx_vars())))
                =~= input0.replace.0@.map_values(|p: (crate::pattern::RegexPattern, Placeholder)| (p.0.pattern(), spec_resolve(p.1.tokens_view(), ctx.ctx_vars()))));
        }
        variants.push(block.input.value.value.clone());
        i += 1;
    }
    proof {
        assert forall|j: int| 0 <= j < split.len() implies (#[trigger] variants@[j])@ == input_value(
            input0,
            vars.ctx_vars().insert(crate::parse::value_name(), split[j]),
        ) by {
            assert(crate::text::strings_view(pieces@)[j] == pieces@[j]@);
        }
    }
    let c = block.active.update(vars);
    let c = match c { Ok(x) => x, Err(_) => false };
    let active = active_index(block.active.value.as_str());
    EnumUpdate { variants, active, updated: a || b || c }
}

} // verus!

verus! {

/// The edge that the blocks up to and including one of type `s` leave
/// open: a left or right separator sets it, other blocks keep it.
pub open spec fn edge_after(edge: Option<SeparatorType>, s: Option<SeparatorType>) -> Option<SeparatorType> {
    match s {
        Some(SeparatorType::Left) | Some(SeparatorType::Right) => s,
        _ => edge,
    }
}

/// The first pass over a group's blocks, `(visible, separator type)`, from
/// block `i` on: hidden blocks leave, and so does a gap that follows a left
/// edge with nothing but gaps in between. `eat` is whether the last block
/// kept was a left edge or a gap.
pub open spec fn drop_hidden_gaps(
    b: Seq<(bool, Option<SeparatorType>)>,
    i: int,
    eat: bool,
    edge: Option<SeparatorType>,
) -> Seq<usize>
    decreases b.len() - i,
{
    if i < 0 || i >= b.len() {
        Seq::empty()
    } else if !b[i].0 {
        drop_hidden_gaps(b, i + 1, eat, edge)
    } else {
        let s = b[i].1;
        let e = edge_after(edge, s);
        if e == Some(SeparatorType::Left) && eat && s == Some(SeparatorType::Gap) {
            drop_hidden_gaps(b, i + 1, eat, e)
        } else {
            seq![i as usize] + drop_hidden_gaps(
                b,
                i + 1,
                s == Some(SeparatorType::Left) || s == Some(SeparatorType::Gap),
                e,
            )
        }
    }
}

/// The second pass, over the blocks `k` that the first kept, from position
/// `j` on: inside a left edge, a gap right before a right separator leaves,
/// and a left separator right before a right one leaves with it.
pub open spec fn drop_empty_pairs(
    b: Seq<(bool, Option<SeparatorType>)>,
    k: Seq<usize>,
    j: int,
    edge: Option<SeparatorType>,
) -> Seq<usize>
    decreases k.len() - j,
{
    if j < 0 || j >= k.len() {
        Seq::empty()
    } else {
        let s = b[k[j] as int].1;
        let e = edge_after(edge, s);
        if e == Some(SeparatorType::Left) && j + 1 < k.len() && s == Some(SeparatorType::Gap)
            && b[k[j + 1] as int].1 == Some(SeparatorType::Right) {
            drop_empty_pairs(b, k, j + 1, e)
        } else if e == Some(SeparatorType::Left) && j + 1 < k.len() && s == Some(SeparatorType::Left)
            && b[k[j + 1] as int].1 == Some(SeparatorType::Right) {
            drop_empty_pairs(b, k, j + 2, Some(SeparatorType::Right))
        } else {
            seq![k[j]] + drop_empty_pairs(b, k, j + 1, e)
        }
    }
}

/// The blocks of a group that are laid out, by index, in order: both passes.
pub open spec fn spec_collapse(b: Seq<(bool, Option<SeparatorType>)>) -> Seq<usize> {
    drop_empty_pairs(b, drop_hidden_gaps(b, 0, true, Some(SeparatorType::Left)), 0, None)
}

fn is_edge(s: Option<SeparatorType>) -> (r: bool)
    ensures
        r == (s == Some(SeparatorType::Left) || s == Some(SeparatorType::Right)),
{
    matches!(s, Some(SeparatorType::Left) | Some(SeparatorType::Right))
}

fn is_type(s: Option<SeparatorType>, t: SeparatorType) -> (r: bool)
    ensures
        r == (s == Some(t)),
{
    match (s, t) {
        (Some(SeparatorType::Left), SeparatorType::Left) => true,
        (Some(SeparatorType::Right), SeparatorType::Right) => true,
        (Some(SeparatorType::Gap), SeparatorType::Gap) => true,
        _ => false,
    }
}

/// Which blocks of a group, given as `(visible, separator type)`, are laid
/// out: separators that hidden blocks leave with nothing to separate
/// collapse (see `spec_collapse`).
pub fn collapse_separators(blocks: &Vec<(bool, Option<SeparatorType>)>) -> (r: Vec<usize>)
    ensures
        r@ == spec_collapse(blocks@),
{
    let ghost b = blocks@;
    let mut kept: Vec<usize> = Vec::new();
    let mut eat = true;
    let mut edge: Option<SeparatorType> = Some(SeparatorType::Left);
    let mut i: usize = 0;
    while i < blocks.len()
        invariant
            b == blocks@,
            i <= blocks.len(),
            forall|t: int| 0 <= t < kept@.len() ==> kept@[t] < i,
            kept@ + drop_hidden_gaps(b, i as int, eat, edge) == drop_hidden_gaps(b, 0, true, Some(SeparatorType::Left)),
        decreases blocks.len() - i,
    {
        let (visible, s) = blocks[i];
        if visible {
            let e = if is_edge(s) { s } else { edge };
            if is_type(e, SeparatorType::Left) && eat && is_type(s, SeparatorType::Gap) {
                edge = e;
            } else {
                let new_eat = is_type(s, SeparatorType::Left) || is_type(s, SeparatorType::Gap);
                let ghost before = kept@;
                let ghost rest = drop_hidden_gaps(b, i + 1, new_eat, e);
                kept.push(i);
                eat = new_eat;
                edge = e;
                assert(before + (seq![i as usize] + rest) =~= kept@ + rest);
            }
        }
        i += 1;
    }
    let ghost k = kept@;
    let mut out: Vec<usize> = Vec::new();
    let mut edge: Option<SeparatorType> = None;
    let mut j: usize = 0;
    while j < kept.len()
        invariant
            b == blocks@,
            k == kept@,
            j <= kept.len(),
            forall|t: int| 0 <= t < kept@.len() ==> kept@[t] < blocks@.len(),
            out@ + drop_empty_pairs(b, k, j as int, edge) == spec_collapse(b),
        decreases kept.len() - j,
    {
        let s = blocks[kept[j]].1;
        let e = if is_edge(s) { s } else { edge };
        let next_right = j + 1 < kept.len() && is_type(blocks[kept[j + 1]].1, SeparatorType::Right);
        if is_type(e, SeparatorType::Left) && next_right && is_type(s, SeparatorType::Gap) {
            edge = e;
            j += 1;
        } else if is_type(e, SeparatorType::Left) && next_right && is_type(s, SeparatorType::Left) {
            edge = Some(SeparatorType::Right);
            j += 2;
        } else {
            let ghost before = out@;
            let ghost rest = drop_empty_pairs(b, k, j + 1, e);
            out.push(kept[j]);
            edge = e;
            assert(before + (seq![k[j as int]] + rest) =~= out@ + rest);
            j += 1;
        }
    }
    out
}


proof fn lemma_first_pass(b: Seq<(bool, Option<SeparatorType>)>, i: int, eat: bool, edge: Option<SeparatorType>)
    requires
        0 <= i,
        b.len() <= usize::MAX,
    ensures
        forall|x: usize| #[trigger] drop_hidden_gaps(b, i, eat, edge).contains(x) ==> i <= x < b.len() && b[x as int].0,
        forall|n: int|
            i <= n < b.len() && b[n].0 && b[n].1 != Some(SeparatorType::Gap) ==> #[trigger] drop_hidden_gaps(
                b,
                i,
                eat,
                edge,
            ).contains(n as usize),
    decreases b.len() - i,
{
    if i >= b.len() {
        assert(drop_hidden_gaps(b, i, eat, edge) =~= Seq::<usize>::empty());
    } else {
        let s = b[i].1;
        let e = edge_after(edge, s);
        if !b[i].0 {
            lemma_first_pass(b, i + 1, eat, edge);
            assert(drop_hidden_gaps(b, i, eat, edge) == drop_hidden_gaps(b, i + 1, eat, edge));
        } else if e == Some(SeparatorType::Left) && eat && s == Some(SeparatorType::Gap) {
            lemma_first_pass(b, i + 1, eat, e);
            assert(drop_hidden_gaps(b, i, eat, edge) == drop_hidden_gaps(b, i + 1, eat, e));
        } else {
            let ne = s == Some(SeparatorType::Left) || s == Some(SeparatorType::Gap);
            lemma_first_pass(b, i + 1, ne, e);
            let rest = drop_hidden_gaps(b, i + 1, ne, e);
            let r = seq![i as usize] + rest;
            assert(drop_hidden_gaps(b, i, eat, edge) == r);
            assert forall|x: usize| r.contains(x) implies i <= x < b.len() && b[x as int].0 by {
                let t = choose|t: int| 0 <= t < r.len() && r[t] == x;
                if t > 0 {
                    assert(rest[t - 1] == x);
                    assert(rest.contains(x));
                }
            }
            assert forall|n: int| i <= n < b.len() && b[n].0 && b[n].1 != Some(SeparatorType::Gap) implies r.contains(
                n as usize,
            ) by {
                if n == i {
                    assert(r[0] == i as usize);
                } else {
                    assert(rest.contains(n as usize));
                    let t = choose|t: int| 0 <= t < rest.len() && rest[t] == n as usize;
                    assert(r[t + 1] == n as usize);
                }
            }
        }
    }
}

proof fn lemma_second_pass(b: Seq<(bool, Option<SeparatorType>)>, k: Seq<usize>, j: int, edge: Option<SeparatorType>)
    requires
        0 <= j,
    ensures
        forall|x: usize| #[trigger] drop_empty_pairs(b, k, j, edge).contains(x) ==> k.contains(x),
        forall|t: int|
            j <= t < k.len() && b[k[t] as int].1 is None ==> #[trigger] drop_empty_pairs(b, k, j, edge).contains(k[t]),
    decreases k.len() - j,
{
    if j >= k.len() {
        assert(drop_empty_pairs(b, k, j, edge) =~= Seq::<usize>::empty());
    } else {
        let s = b[k[j] as int].1;
        let e = edge_after(edge, s);
        if e == Some(SeparatorType::Left) && j + 1 < k.len() && s == Some(SeparatorType::Gap)
            && b[k[j + 1] as int].1 == Some(SeparatorType::Right) {
            lemma_second_pass(b, k, j + 1, e);
            assert(drop_empty_pairs(b, k, j, edge) == drop_empty_pairs(b, k, j + 1, e));
        } else if e == Some(SeparatorType::Left) && j + 1 < k.len() && s == Some(SeparatorType::Left)
            && b[k[j + 1] as int].1 == Some(SeparatorType::Right) {
            lemma_second_pass(b, k, j + 2, Some(SeparatorType::Right));
            assert(drop_empty_pairs(b, k, j, edge) == drop_empty_pairs(b, k, j + 2, Some(SeparatorType::Right)));
        } else {
            lemma_second_pass(b, k, j + 1, e);
            let rest = drop_empty_pairs(b, k, j + 1, e);
            let r = seq![k[j]] + rest;
            assert(drop_empty_pairs(b, k, j, edge) == r);
            assert forall|x: usize| r.contains(x) implies k.contains(x) by {
                let t = choose|t: int| 0 <= t < r.len() && r[t] == x;
                if t > 0 {
                    assert(rest[t - 1] == x);
                    assert(rest.contains(x));
                } else {
                    assert(k[j] == x);
                }
            }
            assert forall|t: int| j <= t < k.len() && b[k[t] as int].1 is None implies r.contains(k[t]) by {
                if t == j {
                    assert(r[0] == k[j]);
                } else {
                    assert(rest.contains(k[t]));
                    let u = choose|u: int| 0 <= u < rest.len() && rest[u] == k[t];
                    assert(r[u + 1] == k[t]);
                }
            }
        }
    }
}

/// Collapsing separators only takes separators away: every visible block
/// that is no separator is laid out, and no hidden block is.
pub proof fn lemma_collapse_keeps_blocks(b: Seq<(bool, Option<SeparatorType>)>)
    requires
        b.len() <= usize::MAX,
    ensures
        forall|i: int| 0 <= i < b.len() && b[i].0 && b[i].1 is None ==> #[trigger] spec_collapse(b).contains(i as usize),
        forall|x: usize| #[trigger] spec_collapse(b).contains(x) ==> x < b.len() && b[x as int].0,
{
    let k = drop_hidden_gaps(b, 0, true, Some(SeparatorType::Left));
    lemma_first_pass(b, 0, true, Some(SeparatorType::Left));
    lemma_second_pass(b, k, 0, None);
    assert forall|i: int| 0 <= i < b.len() && b[i].0 && b[i].1 is None implies spec_collapse(b).contains(i as usize) by {
        assert(k.contains(i as usize));
        let t = choose|t: int| 0 <= t < k.len() && k[t] == i as usize;
        assert(b[k[t] as int].1 is None);
    }
    assert forall|x: usize| spec_collapse(b).contains(x) implies x < b.len() && b[x as int].0 by {
        assert(k.contains(x));
    }
}

} // verus!
