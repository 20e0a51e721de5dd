//! Popups: which blocks a popping-up block shows, and the internal
//! variables whose values show them.

use vstd::prelude::*;
use crate::config::{any_non_blank, any_non_empty, block_display, Bar, Block, Config, PopupMode};
use crate::parse::{spec_parse_expr, ParseErrorV, Placeholder, TokenV};
use crate::text::{
    insert_sorted, owned, push_str, str_eq, strictly_sorted, strings_view,
};
use crate::vars::NameMap;

verus! {

/// The prefix of the internal variables that show popups.
pub open spec fn popup_prefix() -> Seq<char> {
    seq!['_', 'i', 'n', 't', 'e', 'r', 'n', 'a', 'l', ':', 'p', 'o', 'p', 'u', 'p', '.']
}

/// The internal variable that shows the popup of a block.
pub open spec fn popup_var(block_name: Seq<char>) -> Seq<char> {
    popup_prefix() + block_name
}

/// The expression `${...}` of that variable.
pub open spec fn popup_expr(block_name: Seq<char>) -> Seq<char> {
    seq!['$', '{'] + popup_var(block_name) + seq!['}']
}

/// The name of the internal variable that shows the popup of a block:
/// `_internal:popup.` followed by the block's name.
pub fn popup_var_name(block_name: &str) -> (r: String)
    ensures
        r@ == popup_var(block_name@),
{
    let prefix = "_internal:popup.";
    proof {
        reveal_strlit("_internal:popup.");
    }
    let mut r = owned(prefix);
    push_str(&mut r, block_name);
    r
}

/// The expression `${_internal:popup.<name>}`.
fn popup_expr_string(block_name: &str) -> (r: String)
    ensures
        r@ == popup_expr(block_name@),
{
    let open = "${";
    let close = "}";
    proof {
        reveal_strlit("${");
        reveal_strlit("}");
    }
    let mut r = owned(open);
    let v = popup_var_name(block_name);
    push_str(&mut r, v.as_str());
    push_str(&mut r, close);
    r
}

/// Whether some expression of a list has a value that is not blank.
pub trait VecPlaceholderExt {
    fn any_non_empty(&self) -> bool;
}

impl VecPlaceholderExt for Vec<Placeholder> {
    fn any_non_empty(&self) -> (r: bool)
        ensures
            r == any_non_blank(self@),
    {
        any_non_empty(self)
    }
}

/// The blocks that a block shows when it pops up in a mode.
pub open spec fn spec_blocks_needing(mode: PopupMode, trigger: Seq<char>, group: Seq<Seq<char>>, all: Seq<Seq<char>>) -> Seq<Seq<char>> {
    match mode {
        PopupMode::Block => seq![trigger],
        PopupMode::PartialBar => group,
        PopupMode::Bar => all,
    }
}

/// The strings of a list of string slices.
pub open spec fn slices_view(v: Seq<&str>) -> Seq<Seq<char>> {
    v.map_values(|s: &str| s@)
}

fn owned_all(v: &[&str]) -> (r: Vec<String>)
    ensures
        strings_view(r@) == slices_view(v@),
{
    let mut r: Vec<String> = Vec::new();
    let mut i: usize = 0;
    while i < v.len()
        invariant
            i <= v@.len(),
            strings_view(r@) == slices_view(v@.take(i as int)),
        decreases v@.len() - i,
    {
        let ghost before = r@;
        r.push(owned(v[i]));
        assert(strings_view(r@) =~= strings_view(before).push(v@[i as int]@));
        assert(slices_view(v@.take(i + 1)) =~= slices_view(v@.take(i as int)).push(v@[i as int]@));
        i += 1;
    }
    assert(v@.take(i as int) == v@);
    r
}

/// The blocks that `trigger_block_name` shows when it pops up: itself in
/// `Block` mode, its group in `PartialBar` mode, the whole bar in `Bar` mode.
pub fn blocks_needing_popup_vars(
    popup_mode: PopupMode,
    trigger_block_name: &str,
    group_block_names: &[&str],
    all_bar_block_names: &[&str],
) -> (r: Vec<String>)
    ensures
        strings_view(r@) == spec_blocks_needing(popup_mode, trigger_block_name@, slices_view(group_block_names@), slices_view(all_bar_block_names@)),
{
    match popup_mode {
        PopupMode::Block => {
            let mut r: Vec<String> = Vec::new();
            r.push(owned(trigger_block_name));
            assert(strings_view(r@) =~= seq![trigger_block_name@]);
            r
        },
        PopupMode::PartialBar => owned_all(group_block_names),
        PopupMode::Bar => owned_all(all_bar_block_names),
    }
}

} // verus!

verus! {

/// The popup mode of a block of the map, if it exists and has a popup.
pub open spec fn popup_mode_of(blocks: Map<Seq<char>, Block<Placeholder>>, name: Seq<char>) -> Option<PopupMode> {
    if blocks.contains_key(name) {
        block_display(blocks[name]).popup
    } else {
        None
    }
}

/// The three groups of a bar: left, center, right.
pub open spec fn bar_groups(b: Bar<Placeholder>) -> Seq<Seq<Seq<char>>> {
    seq![strings_view(b.blocks_left@), strings_view(b.blocks_center@), strings_view(b.blocks_right@)]
}

/// The blocks of a bar, left to right.
pub open spec fn bar_block_names(b: Bar<Placeholder>) -> Seq<Seq<char>> {
    strings_view(b.blocks_left@) + strings_view(b.blocks_center@) + strings_view(b.blocks_right@)
}

/// The popup expressions that the blocks `names` of `group` (in a bar
/// whose blocks are `all`) add to block `n`: one for each of them with a
/// popup that shows `n`.
pub open spec fn group_exprs_for(
    blocks: Map<Seq<char>, Block<Placeholder>>,
    group: Seq<Seq<char>>,
    all: Seq<Seq<char>>,
    names: Seq<Seq<char>>,
    n: Seq<char>,
) -> Set<Seq<char>>
    decreases names.len(),
{
    if names.len() == 0 {
        Set::empty()
    } else {
        let t = names.last();
        let rest = group_exprs_for(blocks, group, all, names.drop_last(), n);
        match popup_mode_of(blocks, t) {
            Some(m) => if spec_blocks_needing(m, t, group, all).contains(n) {
                rest.insert(popup_expr(t))
            } else {
                rest
            },
            None => rest,
        }
    }
}

/// The popup expressions that the blocks of a bar add to block `n`.
pub open spec fn bar_exprs_for(blocks: Map<Seq<char>, Block<Placeholder>>, b: Bar<Placeholder>, n: Seq<char>) -> Set<Seq<char>> {
    let g = bar_groups(b);
    let all = bar_block_names(b);
    group_exprs_for(blocks, g[0], all, g[0], n)
        + group_exprs_for(blocks, g[1], all, g[1], n)
        + group_exprs_for(blocks, g[2], all, g[2], n)
}

/// The popup expressions that the blocks of all bars add to block `n`.
pub open spec fn popup_exprs_for(blocks: Map<Seq<char>, Block<Placeholder>>, bars: Seq<Bar<Placeholder>>, n: Seq<char>) -> Set<Seq<char>>
    decreases bars.len(),
{
    if bars.len() == 0 {
        Set::empty()
    } else {
        popup_exprs_for(blocks, bars.drop_last(), n) + bar_exprs_for(blocks, bars.last(), n)
    }
}

/// The popup expressions of the blocks among `names` that pop up the whole bar.
pub open spec fn bar_popup_exprs(blocks: Map<Seq<char>, Block<Placeholder>>, names: Seq<Seq<char>>) -> Set<Seq<char>>
    decreases names.len(),
{
    if names.len() == 0 {
        Set::empty()
    } else {
        let rest = bar_popup_exprs(blocks, names.drop_last());
        if popup_mode_of(blocks, names.last()) == Some(PopupMode::Bar) {
            rest.insert(popup_expr(names.last()))
        } else {
            rest
        }
    }
}

/// `ps` are the expressions of `s` in order, each parsed, with empty values.
pub open spec fn placeholders_for(ps: Seq<Placeholder>, s: Set<Seq<char>>) -> bool {
    exists|es: Seq<Seq<char>>|
        strictly_sorted(es) && es.to_set() == s && es.len() == ps.len()
            && forall|i: int| 0 <= i < es.len() ==> spec_parse_expr(#[trigger] es[i]) == Ok::<Seq<TokenV>, ParseErrorV>(ps[i].tokens_view())
                && ps[i].value@ == Seq::<char>::empty()
}

/// The popup expression of every block with a popup that a bar shows can be
/// read (it cannot when the block's name makes it malformed).
pub open spec fn popup_exprs_parse(blocks: Map<Seq<char>, Block<Placeholder>>, bars: Seq<Bar<Placeholder>>) -> bool {
    forall|i: int, j: int| #![trigger bar_block_names(bars[i])[j]]
        0 <= i < bars.len() && 0 <= j < bar_block_names(bars[i]).len()
            && popup_mode_of(blocks, bar_block_names(bars[i])[j]) is Some
        ==> spec_parse_expr(popup_expr(bar_block_names(bars[i])[j])) is Ok
}

/// Whether a list of names holds `n`.
fn contains_name(v: &Vec<String>, n: &str) -> (r: bool)
    ensures
        r == strings_view(v@).contains(n@),
{
    let mut i: usize = 0;
    while i < v.len()
        invariant
            i <= v@.len(),
            forall|j: int| 0 <= j < i ==> v@[j]@ != n@,
        decreases v@.len() - i,
    {
        if str_eq(v[i].as_str(), n) {
            assert(strings_view(v@)[i as int] == n@);
            return true;
        }
        i += 1;
    }
    assert forall|j: int| 0 <= j < strings_view(v@).len() implies strings_view(v@)[j] != n@ by {
        assert(strings_view(v@)[j] == v@[j]@);
    }
    false
}

/// The names of a bar's blocks, left to right.
fn bar_names_vec(b: &Bar<Placeholder>) -> (r: Vec<String>)
    ensures
        strings_view(r@) == bar_block_names(*b),
{
    let mut r = crate::text::clone_strings(&b.blocks_left);
    let mut c = crate::text::clone_strings(&b.blocks_center);
    let mut d = crate::text::clone_strings(&b.blocks_right);
    r.append(&mut c);
    r.append(&mut d);
    assert(strings_view(r@) =~= bar_block_names(*b));
    r
}

/// Whether the popup of a block in `mode` shows block `n`.
fn needs(mode: PopupMode, t: &str, group: &Vec<String>, all: &Vec<String>, n: &str) -> (r: bool)
    ensures
        r == spec_blocks_needing(mode, t@, strings_view(group@), strings_view(all@)).contains(n@),
{
    match mode {
        PopupMode::Block => {
            let r = str_eq(t, n);
            proof {
                if r {
                    assert(seq![t@][0] == n@);
                }
            }
            r
        },
        PopupMode::PartialBar => contains_name(group, n),
        PopupMode::Bar => contains_name(all, n),
    }
}

/// Adds to `acc` the popup expressions that the blocks of `group` add to `n`.
fn add_group_exprs(
    blocks: &NameMap<Block<Placeholder>>,
    group: &Vec<String>,
    all: &Vec<String>,
    n: &str,
    acc: &mut Vec<String>,
)
    requires
        strictly_sorted(strings_view(old(acc)@)),
    ensures
        strictly_sorted(strings_view(final(acc)@)),
        strings_view(final(acc)@).to_set() == strings_view(old(acc)@).to_set()
            + group_exprs_for(blocks@, strings_view(group@), strings_view(all@), strings_view(group@), n@),
{
    let ghost g = strings_view(group@);
    let ghost a = strings_view(all@);
    let ghost start = strings_view(acc@).to_set();
    let mut j: usize = 0;
    assert(g.take(0) =~= Seq::<Seq<char>>::empty());
    assert(start + Set::<Seq<char>>::empty() =~= start);
    while j < group.len()
        invariant
            j <= group@.len(),
            g == strings_view(group@),
            a == strings_view(all@),
            strictly_sorted(strings_view(acc@)),
            strings_view(acc@).to_set() == start + group_exprs_for(blocks@, g, a, g.take(j as int), n@),
        decreases group@.len() - j,
    {
        let ghost before = strings_view(acc@).to_set();
        let ghost t = g[j as int];
        assert(g.take(j + 1).drop_last() == g.take(j as int));
        assert(g.take(j + 1).last() == t);
        assert(group@[j as int]@ == t);
        let ghost prev = group_exprs_for(blocks@, g, a, g.take(j as int), n@);
        match blocks.get(group[j].as_str()) {
            Some(b) => match b.popup() {
                Some(m) => {
                    if needs(m, group[j].as_str(), group, all, n) {
                        insert_sorted(acc, popup_expr_string(group[j].as_str()));
                        assert(strings_view(acc@).to_set() =~= start + prev.insert(popup_expr(t)));
                    }
                },
                None => {},
            },
            None => {},
        }
        j += 1;
    }
    assert(g.take(j as int) == g);
}

/// The popup expressions that the blocks of all bars add to block `n`, in order.
fn block_popup_exprs(blocks: &NameMap<Block<Placeholder>>, bars: &Vec<Bar<Placeholder>>, n: &str) -> (r: Vec<String>)
    ensures
        strictly_sorted(strings_view(r@)),
        strings_view(r@).to_set() == popup_exprs_for(blocks@, bars@, n@),
{
    let mut acc: Vec<String> = Vec::new();
    let mut i: usize = 0;
    assert(bars@.take(0) =~= Seq::<Bar<Placeholder>>::empty());
    assert(strings_view(acc@).to_set() =~= Set::<Seq<char>>::empty());
    while i < bars.len()
        invariant
            i <= bars@.len(),
            strictly_sorted(strings_view(acc@)),
            strings_view(acc@).to_set() == popup_exprs_for(blocks@, bars@.take(i as int), n@),
        decreases bars@.len() - i,
    {
        let b = &bars[i];
        let all = bar_names_vec(b);
        let ghost before = strings_view(acc@).to_set();
        add_group_exprs(blocks, &b.blocks_left, &all, n, &mut acc);
        add_group_exprs(blocks, &b.blocks_center, &all, n, &mut acc);
        add_group_exprs(blocks, &b.blocks_right, &all, n, &mut acc);
        proof {
            assert(bars@.take(i + 1).drop_last() == bars@.take(i as int));
            assert(bars@.take(i + 1).last() == *b);
            let g = bar_groups(*b);
            assert(g[0] == strings_view(b.blocks_left@));
            assert(g[1] == strings_view(b.blocks_center@));
            assert(g[2] == strings_view(b.blocks_right@));
            let a = bar_block_names(*b);
            assert(strings_view(acc@).to_set() =~= before + bar_exprs_for(blocks@, *b, n@));
        }
        i += 1;
    }
    assert(bars@.take(i as int) == bars@);
    acc
}

} // verus!

verus! {

/// The expression of every name with a popup among `names` can be read.
pub open spec fn names_parse(blocks: Map<Seq<char>, Block<Placeholder>>, names: Seq<Seq<char>>) -> bool {
    forall|k: int| 0 <= k < names.len() && popup_mode_of(blocks, #[trigger] names[k]) is Some
        ==> spec_parse_expr(popup_expr(names[k])) is Ok
}

proof fn lemma_group_exprs_parse(
    blocks: Map<Seq<char>, Block<Placeholder>>,
    group: Seq<Seq<char>>,
    all: Seq<Seq<char>>,
    names: Seq<Seq<char>>,
    n: Seq<char>,
)
    requires
        names_parse(blocks, names),
    ensures
        forall|e: Seq<char>| #[trigger] group_exprs_for(blocks, group, all, names, n).contains(e) ==> spec_parse_expr(e) is Ok,
    decreases names.len(),
{
    if names.len() > 0 {
        let t = names.drop_last();
        assert forall|k: int| 0 <= k < t.len() && popup_mode_of(blocks, #[trigger] t[k]) is Some
            implies spec_parse_expr(popup_expr(t[k])) is Ok by {
            assert(t[k] == names[k]);
        }
        lemma_group_exprs_parse(blocks, group, all, t, n);
        let last = names.last();
        assert(names[names.len() - 1] == last);
        assert forall|e: Seq<char>| #[trigger] group_exprs_for(blocks, group, all, names, n).contains(e)
            implies spec_parse_expr(e) is Ok by {
            if !group_exprs_for(blocks, group, all, t, n).contains(e) {
                assert(popup_mode_of(blocks, names[names.len() - 1]) is Some);
            }
        }
    }
}

proof fn lemma_bar_exprs_parse(blocks: Map<Seq<char>, Block<Placeholder>>, b: Bar<Placeholder>, n: Seq<char>)
    requires
        names_parse(blocks, bar_block_names(b)),
    ensures
        forall|e: Seq<char>| #[trigger] bar_exprs_for(blocks, b, n).contains(e) ==> spec_parse_expr(e) is Ok,
{
    let g = bar_groups(b);
    let all = bar_block_names(b);
    let l = strings_view(b.blocks_left@);
    let c = strings_view(b.blocks_center@);
    let r = strings_view(b.blocks_right@);
    assert forall|k: int| 0 <= k < l.len() && popup_mode_of(blocks, #[trigger] l[k]) is Some implies spec_parse_expr(popup_expr(l[k])) is Ok by {
        assert(all[k] == l[k]);
    }
    assert forall|k: int| 0 <= k < c.len() && popup_mode_of(blocks, #[trigger] c[k]) is Some implies spec_parse_expr(popup_expr(c[k])) is Ok by {
        assert(all[l.len() + k] == c[k]);
    }
    assert forall|k: int| 0 <= k < r.len() && popup_mode_of(blocks, #[trigger] r[k]) is Some implies spec_parse_expr(popup_expr(r[k])) is Ok by {
        assert(all[l.len() + c.len() + k] == r[k]);
    }
    lemma_group_exprs_parse(blocks, g[0], all, g[0], n);
    lemma_group_exprs_parse(blocks, g[1], all, g[1], n);
    lemma_group_exprs_parse(blocks, g[2], all, g[2], n);
}

proof fn lemma_popup_exprs_parse(blocks: Map<Seq<char>, Block<Placeholder>>, bars: Seq<Bar<Placeholder>>, n: Seq<char>)
    requires
        popup_exprs_parse(blocks, bars),
    ensures
        forall|e: Seq<char>| #[trigger] popup_exprs_for(blocks, bars, n).contains(e) ==> spec_parse_expr(e) is Ok,
    decreases bars.len(),
{
    if bars.len() > 0 {
        let t = bars.drop_last();
        assert forall|i: int, j: int| #![trigger bar_block_names(t[i])[j]]
            0 <= i < t.len() && 0 <= j < bar_block_names(t[i]).len() && popup_mode_of(blocks, bar_block_names(t[i])[j]) is Some
            implies spec_parse_expr(popup_expr(bar_block_names(t[i])[j])) is Ok by {
            assert(t[i] == bars[i]);
            assert(bar_block_names(bars[i])[j] == bar_block_names(t[i])[j]);
        }
        lemma_popup_exprs_parse(blocks, t, n);
        let last = bars.last();
        assert forall|k: int| 0 <= k < bar_block_names(last).len() && popup_mode_of(blocks, #[trigger] bar_block_names(last)[k]) is Some
            implies spec_parse_expr(popup_expr(bar_block_names(last)[k])) is Ok by {
            assert(bars[bars.len() - 1] == last);
            assert(bar_block_names(bars[bars.len() - 1])[k] == bar_block_names(last)[k]);
        }
        lemma_bar_exprs_parse(blocks, last, n);
        assert forall|e: Seq<char>| #[trigger] popup_exprs_for(blocks, bars, n).contains(e)
            implies spec_parse_expr(e) is Ok by {
            if !popup_exprs_for(blocks, t, n).contains(e) {
                assert(bar_exprs_for(blocks, last, n).contains(e));
            }
        }
    }
}

proof fn lemma_bar_popup_exprs_parse(blocks: Map<Seq<char>, Block<Placeholder>>, names: Seq<Seq<char>>)
    requires
        names_parse(blocks, names),
    ensures
        forall|e: Seq<char>| #[trigger] bar_popup_exprs(blocks, names).contains(e) ==> spec_parse_expr(e) is Ok,
    decreases names.len(),
{
    if names.len() > 0 {
        let t = names.drop_last();
        assert forall|k: int| 0 <= k < t.len() && popup_mode_of(blocks, #[trigger] t[k]) is Some
            implies spec_parse_expr(popup_expr(t[k])) is Ok by {
            assert(t[k] == names[k]);
        }
        lemma_bar_popup_exprs_parse(blocks, t);
        let last = names.last();
        assert(names[names.len() - 1] == last);
        assert forall|e: Seq<char>| #[trigger] bar_popup_exprs(blocks, names).contains(e)
            implies spec_parse_expr(e) is Ok by {
            if !bar_popup_exprs(blocks, t).contains(e) {
                assert(popup_mode_of(blocks, names[names.len() - 1]) is Some);
            }
        }
    }
}

/// The popup expressions of the blocks of a bar that pop up the whole bar, in order.
fn bar_popup_expr_list(blocks: &NameMap<Block<Placeholder>>, b: &Bar<Placeholder>) -> (r: Vec<String>)
    ensures
        strictly_sorted(strings_view(r@)),
        strings_view(r@).to_set() == bar_popup_exprs(blocks@, bar_block_names(*b)),
{
    let names = bar_names_vec(b);
    let ghost ns = strings_view(names@);
    let mut acc: Vec<String> = Vec::new();
    let mut j: usize = 0;
    assert(ns.take(0) =~= Seq::<Seq<char>>::empty());
    assert(strings_view(acc@).to_set() =~= Set::<Seq<char>>::empty());
    while j < names.len()
        invariant
            j <= names@.len(),
            ns == strings_view(names@),
            strictly_sorted(strings_view(acc@)),
            strings_view(acc@).to_set() == bar_popup_exprs(blocks@, ns.take(j as int)),
        decreases names@.len() - j,
    {
        assert(ns.take(j + 1).drop_last() == ns.take(j as int));
        assert(ns.take(j + 1).last() == names@[j as int]@);
        match blocks.get(names[j].as_str()) {
            Some(blk) => {
                if blk.popup() == Some(PopupMode::Bar) {
                    insert_sorted(&mut acc, popup_expr_string(names[j].as_str()));
                }
            },
            None => {},
        }
        j += 1;
    }
    assert(ns.take(j as int) == ns);
    acc
}

/// The expressions of a list, each parsed.
fn placeholders_of(es: &Vec<String>) -> (r: Vec<Placeholder>)
    requires
        forall|i: int| 0 <= i < es@.len() ==> spec_parse_expr(#[trigger] es@[i]@) is Ok,
    ensures
        r@.len() == es@.len(),
        forall|i: int| 0 <= i < es@.len() ==> spec_parse_expr(#[trigger] es@[i]@) == Ok::<Seq<TokenV>, ParseErrorV>(r@[i].tokens_view())
            && r@[i].value@ == Seq::<char>::empty(),
{
    let mut r: Vec<Placeholder> = Vec::new();
    let mut i: usize = 0;
    while i < es.len()
        invariant
            i <= es@.len(),
            r@.len() == i,
            forall|k: int| 0 <= k < es@.len() ==> spec_parse_expr(#[trigger] es@[k]@) is Ok,
            forall|k: int| 0 <= k < i ==> spec_parse_expr(#[trigger] es@[k]@) == Ok::<Seq<TokenV>, ParseErrorV>(r@[k].tokens_view())
                && r@[k].value@ == Seq::<char>::empty(),
        decreases es@.len() - i,
    {
        r.push(Placeholder::infallable(es[i].as_str()));
        i += 1;
    }
    r
}

} // verus!

verus! {

/// `new` is `old` followed by the expressions of `s` in order, each parsed,
/// with empty values.
pub open spec fn appended_placeholders(old: Seq<Placeholder>, new: Seq<Placeholder>, s: Set<Seq<char>>) -> bool {
    new.len() >= old.len() && new.take(old.len() as int) == old && placeholders_for(new.skip(old.len() as int), s)
}

/// Adds the expressions to the popup expressions of a block, in turn.
fn add_popup_vars(b: &mut Block<Placeholder>, ps: Vec<Placeholder>)
    ensures
        block_display(*final(b)).popup_show_if_some@ == block_display(*old(b)).popup_show_if_some@ + ps@,
        *final(b) == crate::config::with_popup_vars(*old(b), block_display(*final(b)).popup_show_if_some),
{
    let ghost b0 = *b;
    let ghost all = ps@;
    let mut rest = ps;
    let mut k: usize = 0;
    assert(all.skip(0) == all);
    assert(block_display(*b).popup_show_if_some@ + all.take(0) =~= block_display(b0).popup_show_if_some@);
    assert(all.len() == rest.len());
    while rest.len() > 0
        invariant
            k <= all.len() <= usize::MAX,
            rest@ == all.skip(k as int),
            block_display(*b).popup_show_if_some@ == block_display(b0).popup_show_if_some@ + all.take(k as int),
            *b == crate::config::with_popup_vars(b0, block_display(*b).popup_show_if_some),
        decreases rest@.len(),
    {
        assert(k < all.len());
        let p = rest.remove(0);
        assert(p == all[k as int]);
        assert(all.skip(k as int).drop_first() == all.skip(k + 1));
        b.add_popup_var(p);
        assert(block_display(b0).popup_show_if_some@ + all.take(k + 1)
            =~= (block_display(b0).popup_show_if_some@ + all.take(k as int)).push(p));
        k += 1;
    }
    assert(all.take(k as int) == all);
}

/// Gives each block the popup expressions of the blocks whose popups show
/// it, and each bar those of its blocks that pop up the whole bar.
///
/// A block with a popup shows, when it pops up, itself (`Block` mode), its
/// group of the bar (`PartialBar`) or the whole bar (`Bar`); each block so
/// shown gets `${_internal:popup.<name>}` of the popping block among its
/// popup expressions, each expression once, in the order of their text. A
/// bar with blocks in `Bar` mode gets theirs as its popup expressions.
pub fn process_config(config: &mut Config<Placeholder>)
    requires
        popup_exprs_parse(old(config).blocks@, old(config).bar@),
    ensures
        final(config).blocks@.dom() == old(config).blocks@.dom(),
        forall|n: Seq<char>| #[trigger] old(config).blocks@.contains_key(n) ==> {
            let ob = old(config).blocks@[n];
            let nb = final(config).blocks@[n];
            &&& nb == crate::config::with_popup_vars(ob, block_display(nb).popup_show_if_some)
            &&& appended_placeholders(
                block_display(ob).popup_show_if_some@,
                block_display(nb).popup_show_if_some@,
                popup_exprs_for(old(config).blocks@, old(config).bar@, n),
            )
        },
        final(config).bar@.len() == old(config).bar@.len(),
        forall|i: int| 0 <= i < old(config).bar@.len() ==> {
            let s = bar_popup_exprs(old(config).blocks@, bar_block_names(old(config).bar@[i]));
            let nb = #[trigger] final(config).bar@[i];
            if s == Set::<Seq<char>>::empty() {
                nb == old(config).bar@[i]
            } else {
                nb == (Bar { popup_show_if_some: nb.popup_show_if_some, ..old(config).bar@[i] })
                    && placeholders_for(nb.popup_show_if_some@, s)
            }
        },
        final(config).vars == old(config).vars,
        final(config).var_order == old(config).var_order,
        final(config).blocks_vec == old(config).blocks_vec,
        final(config).vars_vec == old(config).vars_vec,
        final(config).commands == old(config).commands,
        final(config).default_block_vec == old(config).default_block_vec,
{
    let ghost ob = config.blocks@;
    let ghost obars = config.bar@;
    let names = config.blocks.names();

    let mut plans: Vec<Vec<String>> = Vec::new();
    let mut i: usize = 0;
    while i < names.len()
        invariant
            i <= names@.len(),
            plans@.len() == i,
            config.blocks@ == ob,
            config.bar@ == obars,
            forall|k: int| 0 <= k < i ==> strictly_sorted(strings_view((#[trigger] plans@[k])@))
                && strings_view(plans@[k]@).to_set() == popup_exprs_for(ob, obars, names@[k]@),
        decreases names@.len() - i,
    {
        plans.push(block_popup_exprs(&config.blocks, &config.bar, names[i].as_str()));
        i += 1;
    }

    let mut bar_plans: Vec<Vec<String>> = Vec::new();
    let mut j: usize = 0;
    while j < config.bar.len()
        invariant
            j <= obars.len(),
            bar_plans@.len() == j,
            config.blocks@ == ob,
            config.bar@ == obars,
            forall|k: int| 0 <= k < j ==> strictly_sorted(strings_view((#[trigger] bar_plans@[k])@))
                && strings_view(bar_plans@[k]@).to_set() == bar_popup_exprs(ob, bar_block_names(obars[k])),
        decreases obars.len() - j,
    {
        bar_plans.push(bar_popup_expr_list(&config.blocks, &config.bar[j]));
        j += 1;
    }

    let mut i: usize = 0;
    while i < names.len()
        invariant
            i <= names@.len(),
            plans@.len() == names@.len(),
            popup_exprs_parse(ob, obars),
            forall|a: int, c: int| 0 <= a < c < names@.len() ==> names@[a]@ != names@[c]@,
            forall|n: Seq<char>| #[trigger] ob.contains_key(n) <==> exists|a: int| 0 <= a < names@.len() && names@[a]@ == n,
            forall|k: int| 0 <= k < names@.len() ==> strictly_sorted(strings_view((#[trigger] plans@[k])@))
                && strings_view(plans@[k]@).to_set() == popup_exprs_for(ob, obars, names@[k]@),
            config.blocks@.dom() == ob.dom(),
            forall|k: int| 0 <= k < i ==> {
                let n = (#[trigger] names@[k])@;
                let nb = config.blocks@[n];
                &&& nb == crate::config::with_popup_vars(ob[n], block_display(nb).popup_show_if_some)
                &&& appended_placeholders(block_display(ob[n]).popup_show_if_some@, block_display(nb).popup_show_if_some@, popup_exprs_for(ob, obars, n))
            },
            forall|k: int| i <= k < names@.len() ==> config.blocks@[(#[trigger] names@[k])@] == ob[names@[k]@],
            config.bar@ == obars,
            config.vars == old(config).vars,
            config.var_order == old(config).var_order,
            config.blocks_vec == old(config).blocks_vec,
            config.vars_vec == old(config).vars_vec,
            config.commands == old(config).commands,
            config.default_block_vec == old(config).default_block_vec,
        decreases names@.len() - i,
    {
        let ghost n = names@[i as int]@;
        let ghost before = config.blocks@;
        assert(ob.contains_key(n));
        proof {
            lemma_popup_exprs_parse(ob, obars, n);
            assert forall|x: int| 0 <= x < plans@[i as int]@.len() implies spec_parse_expr(#[trigger] plans@[i as int]@[x]@) is Ok by {
                assert(strings_view(plans@[i as int]@)[x] == plans@[i as int]@[x]@);
                assert(strings_view(plans@[i as int]@).to_set().contains(plans@[i as int]@[x]@));
            }
        }
        let ps = placeholders_of(&plans[i]);
        let ghost psv = ps@;
        match config.blocks.take(names[i].as_str()) {
            Some(b) => {
                let mut b = b;
                let ghost b0 = b;
                add_popup_vars(&mut b, ps);
                let ghost nb = b;
                config.blocks.insert(names[i].clone(), b);
                proof {
                    let old_list = block_display(b0).popup_show_if_some@;
                    let new_list = block_display(nb).popup_show_if_some@;
                    assert(new_list.take(old_list.len() as int) =~= old_list);
                    assert(new_list.skip(old_list.len() as int) =~= psv);
                    let es = strings_view(plans@[i as int]@);
                    assert forall|x: int| 0 <= x < es.len() implies spec_parse_expr(#[trigger] es[x]) == Ok::<Seq<TokenV>, ParseErrorV>(psv[x].tokens_view())
                        && psv[x].value@ == Seq::<char>::empty() by {
                        assert(es[x] == plans@[i as int]@[x]@);
                    }
                    assert(placeholders_for(psv, popup_exprs_for(ob, obars, n)));
                    assert(config.blocks@ == before.insert(n, nb));
                    assert(config.blocks@.dom() =~= ob.dom());
                    assert forall|k: int| 0 <= k < i + 1 implies {
                        let m = (#[trigger] names@[k])@;
                        let mb = config.blocks@[m];
                        &&& mb == crate::config::with_popup_vars(ob[m], block_display(mb).popup_show_if_some)
                        &&& appended_placeholders(block_display(ob[m]).popup_show_if_some@, block_display(mb).popup_show_if_some@, popup_exprs_for(ob, obars, m))
                    } by {
                        if k < i {
                            assert(names@[k]@ != n);
                        }
                    }
                    assert forall|k: int| i + 1 <= k < names@.len() implies config.blocks@[(#[trigger] names@[k])@] == ob[names@[k]@] by {
                        assert(names@[k]@ != n);
                    }
                }
            },
            None => {
                assert(false);
            },
        }
        i += 1;
    }
    proof {
        assert forall|n: Seq<char>| #[trigger] ob.contains_key(n) implies {
            let nb = config.blocks@[n];
            &&& nb == crate::config::with_popup_vars(ob[n], block_display(nb).popup_show_if_some)
            &&& appended_placeholders(block_display(ob[n]).popup_show_if_some@, block_display(nb).popup_show_if_some@, popup_exprs_for(ob, obars, n))
        } by {
            let a = choose|a: int| 0 <= a < names@.len() && names@[a]@ == n;
            assert(names@[a]@ == n);
        }
    }
    let ghost mid = config.blocks@;

    let mut j: usize = 0;
    while j < bar_plans.len()
        invariant
            j <= bar_plans@.len(),
            bar_plans@.len() == obars.len(),
            config.bar@.len() == obars.len(),
            config.blocks@ == mid,
            config.vars == old(config).vars,
            config.var_order == old(config).var_order,
            config.blocks_vec == old(config).blocks_vec,
            config.vars_vec == old(config).vars_vec,
            config.commands == old(config).commands,
            config.default_block_vec == old(config).default_block_vec,
            popup_exprs_parse(ob, obars),
            forall|k: int| 0 <= k < obars.len() ==> strictly_sorted(strings_view((#[trigger] bar_plans@[k])@))
                && strings_view(bar_plans@[k]@).to_set() == bar_popup_exprs(ob, bar_block_names(obars[k])),
            forall|k: int| j <= k < obars.len() ==> #[trigger] config.bar@[k] == obars[k],
            forall|k: int| 0 <= k < j ==> {
                let s = bar_popup_exprs(ob, bar_block_names(obars[k]));
                let nb = #[trigger] config.bar@[k];
                if s == Set::<Seq<char>>::empty() {
                    nb == obars[k]
                } else {
                    nb == (Bar { popup_show_if_some: nb.popup_show_if_some, ..obars[k] })
                        && placeholders_for(nb.popup_show_if_some@, s)
                }
            },
        decreases bar_plans@.len() - j,
    {
        let ghost s = bar_popup_exprs(ob, bar_block_names(obars[j as int]));
        let ghost es = strings_view(bar_plans@[j as int]@);
        if bar_plans[j].len() > 0 {
            proof {
                let names_j = bar_block_names(obars[j as int]);
                assert forall|x: int| 0 <= x < names_j.len() && popup_mode_of(ob, #[trigger] names_j[x]) is Some
                    implies spec_parse_expr(popup_expr(names_j[x])) is Ok by {
                    assert(bar_block_names(obars[j as int])[x] == names_j[x]);
                }
                lemma_bar_popup_exprs_parse(ob, names_j);
                assert forall|x: int| 0 <= x < bar_plans@[j as int]@.len() implies spec_parse_expr(#[trigger] bar_plans@[j as int]@[x]@) is Ok by {
                    assert(es[x] == bar_plans@[j as int]@[x]@);
                    assert(es.to_set().contains(es[x]));
                }
                assert(es.to_set().contains(es[0]));
            }
            let ps = placeholders_of(&bar_plans[j]);
            let ghost psv = ps@;
            config.bar[j].popup_show_if_some = ps;
            proof {
                assert forall|x: int| 0 <= x < es.len() implies spec_parse_expr(#[trigger] es[x]) == Ok::<Seq<TokenV>, ParseErrorV>(psv[x].tokens_view())
                    && psv[x].value@ == Seq::<char>::empty() by {
                    assert(es[x] == bar_plans@[j as int]@[x]@);
                }
                assert(placeholders_for(psv, s));
                assert(s != Set::<Seq<char>>::empty());
            }
        } else {
            assert(es.to_set() =~= Set::<Seq<char>>::empty());
        }
        j += 1;
    }
}

} // verus!

verus! {

/// A popup is not shown again within this many milliseconds of being hidden,
/// so that hiding a popup, which changes the variables that show it, does
/// not show it again at once.
pub const POPUP_REOPEN_DELAY_MS: u64 = 100;

/// How long a popup stays, in milliseconds, after its last trigger.
pub const POPUP_DURATION_MS: u64 = 1000;

/// `u` sets the popup variable of block `b` to `v`, for no command.
pub open spec fn is_popup_update(u: crate::state::Update, b: Seq<char>, v: Seq<char>) -> bool {
    u matches crate::state::Update::VarUpdate(x)
        && x.command_name is None && x.error is None && x.entries@.len() == 1
        && x.entries@[0].name is None && x.entries@[0].instance is None
        && x.entries@[0].var@ == popup_var(b) && x.entries@[0].value@ == v
}

/// The update that sets the popup variable of a block.
fn popup_update(block_name: &str, value: &str) -> (r: crate::state::Update)
    ensures
        is_popup_update(r, block_name@, value@),
{
    let mut entries: Vec<crate::state::UpdateEntry> = Vec::new();
    entries.push(crate::state::UpdateEntry { name: None, instance: None, var: popup_var_name(block_name), value: owned(value) });
    crate::state::Update::VarUpdate(crate::state::VarUpdate { command_name: None, entries, error: None })
}

/// Milliseconds from `since` to `now` of a monotonic clock, zero when `now`
/// is earlier (as `Instant::elapsed` saturates).
pub open spec fn elapsed_ms(since: u64, now: u64) -> int {
    if now >= since { now - since } else { 0 }
}

/// Which popups are up, and when each was last hidden.
#[derive(Debug)]
pub struct PopupManager {
    /// The blocks whose popup timer runs.
    pub timers: NameMap<bool>,
    /// When each block's popup was last hidden, in milliseconds of a monotonic clock.
    pub last_time_hidden: NameMap<u64>,
}

/// What a popup trigger asks of the event loop.
#[derive(Debug)]
pub struct PopupTrigger {
    /// The block's timer runs: cancel it, and start it again.
    pub cancel_timer: bool,
    /// The update that shows the popup, to send.
    pub show: Option<crate::state::Update>,
}

impl PopupManager {
    /// No popup up, none hidden yet.
    pub fn new() -> (r: Self)
        ensures
            r.timers@ == Map::<Seq<char>, bool>::empty(),
            r.last_time_hidden@ == Map::<Seq<char>, u64>::empty(),
    {
        PopupManager { timers: NameMap::new(), last_time_hidden: NameMap::new() }
    }

    /// The update that shows a block's popup, unless the popup was hidden
    /// less than `POPUP_REOPEN_DELAY_MS` ago.
    pub fn generate_update_to_show(&self, block_name: &str, now_ms: u64) -> (r: Option<crate::state::Update>)
        ensures
            r is None <==> (self.last_time_hidden@.contains_key(block_name@)
                && elapsed_ms(self.last_time_hidden@[block_name@], now_ms) < POPUP_REOPEN_DELAY_MS),
            r matches Some(u) ==> is_popup_update(u, block_name@, seq!['t', 'r', 'u', 'e']),
    {
        match self.last_time_hidden.get(block_name) {
            Some(last) => {
                let elapsed = if now_ms >= *last { now_ms - *last } else { 0 };
                if elapsed < POPUP_REOPEN_DELAY_MS {
                    return None;
                }
            },
            None => {},
        }
        let t = "true";
        proof {
            reveal_strlit("true");
            assert(t@ =~= seq!['t', 'r', 'u', 'e']);
        }
        Some(popup_update(block_name, t))
    }

    /// The update that hides a block's popup; its timer is over, and the
    /// time is recorded.
    pub fn generate_update_to_hide(&mut self, block_name: &str, now_ms: u64) -> (r: crate::state::Update)
        ensures
            is_popup_update(r, block_name@, Seq::<char>::empty()),
            final(self).timers@ == old(self).timers@.remove(block_name@),
            final(self).last_time_hidden@ == old(self).last_time_hidden@.insert(block_name@, now_ms),
    {
        let _ = self.timers.take(block_name);
        self.last_time_hidden.insert(owned(block_name), now_ms);
        let e = "";
        proof {
            reveal_strlit("");
            assert(e@ =~= Seq::<char>::empty());
        }
        popup_update(block_name, e)
    }

    /// A block asks for its popup: a running timer is cancelled to be
    /// started again (the popup stays longer); otherwise the popup is shown,
    /// unless it was hidden a moment ago. Either way the block's timer runs.
    pub fn trigger_popup(&mut self, block_name: &str, now_ms: u64) -> (r: PopupTrigger)
        ensures
            r.cancel_timer == old(self).timers@.contains_key(block_name@),
            r.cancel_timer ==> r.show is None,
            !r.cancel_timer ==> (r.show is None <==> (old(self).last_time_hidden@.contains_key(block_name@)
                && elapsed_ms(old(self).last_time_hidden@[block_name@], now_ms) < POPUP_REOPEN_DELAY_MS)),
            r.show matches Some(u) ==> is_popup_update(u, block_name@, seq!['t', 'r', 'u', 'e']),
            final(self).timers@ == old(self).timers@.insert(block_name@, true),
            final(self).last_time_hidden == old(self).last_time_hidden,
    {
        match self.timers.take(block_name) {
            Some(_) => {
                self.timers.insert(owned(block_name), true);
                PopupTrigger { cancel_timer: true, show: None }
            },
            None => {
                let show = self.generate_update_to_show(block_name, now_ms);
                self.timers.insert(owned(block_name), true);
                PopupTrigger { cancel_timer: false, show }
            },
        }
    }
}

} // verus!

verus! {

/// A popup hidden at `hidden_at` is not shown again by a trigger less than
/// `POPUP_REOPEN_DELAY_MS` later.
pub proof fn lemma_no_reopen_after_hide(
    last_time_hidden: Map<Seq<char>, u64>,
    block_name: Seq<char>,
    hidden_at: u64,
    now: u64,
)
    requires
        hidden_at <= now < hidden_at + POPUP_REOPEN_DELAY_MS,
    ensures
        last_time_hidden.insert(block_name, hidden_at).contains_key(block_name),
        elapsed_ms(last_time_hidden.insert(block_name, hidden_at)[block_name], now) < POPUP_REOPEN_DELAY_MS,
{
}

} // verus!
