//! The bar's state: variables, errors and pointer positions, and the updates
//! that change them.

use vstd::prelude::*;
use crate::config::{spec_replace_apply, Bar, Config, Var};
use crate::parse::{spec_resolve, Placeholder};
use crate::pattern::RegexPattern;
use crate::vars::{NameMap, VarMap};

verus! {

/// One value of a variable reported by a command.
#[derive(Debug)]
pub struct UpdateEntry {
    /// The block of the i3bar protocol that reported it, if any.
    pub name: Option<String>,
    pub instance: Option<String>,
    pub var: String,
    pub value: String,
}

impl Default for UpdateEntry {
    fn default() -> (r: Self)
        ensures
            r.name is None,
            r.instance is None,
            r.var@ == Seq::<char>::empty(),
            r.value@ == Seq::<char>::empty(),
    {
        UpdateEntry { name: None, instance: None, var: String::new(), value: String::new() }
    }
}

/// Values reported together, by a command or by the bar itself.
#[derive(Debug)]
pub struct VarUpdate {
    pub command_name: Option<String>,
    pub entries: Vec<UpdateEntry>,
    pub error: Option<String>,
}

impl Default for VarUpdate {
    fn default() -> (r: Self)
        ensures
            r.command_name is None,
            r.entries@.len() == 0,
            r.error is None,
    {
        VarUpdate { command_name: None, entries: Vec::new(), error: None }
    }
}

/// The pointer moved over a window, or left it (`position` is `None`).
#[derive(Debug)]
pub struct MotionUpdate {
    pub window_name: String,
    pub position: Option<(i16, i16)>,
}

impl Default for MotionUpdate {
    fn default() -> (r: Self)
        ensures
            r.window_name@ == Seq::<char>::empty(),
            r.position is None,
    {
        MotionUpdate { window_name: String::new(), position: None }
    }
}

/// A change to the state.
#[derive(Debug)]
pub enum Update {
    VarUpdate(VarUpdate),
    MotionUpdate(MotionUpdate),
}

/// The variables whose values changed, with their new values.
#[derive(Debug)]
pub struct VarSnapshotUpdate {
    pub vars: VarMap,
}

impl Clone for VarSnapshotUpdate {
    fn clone(&self) -> (r: Self)
        ensures
            r.vars@ == self.vars@,
    {
        VarSnapshotUpdate { vars: self.vars.clone() }
    }
}

} // verus!

verus! {

/// The lines of a text, as `str::split('\n')` gives them.
pub open spec fn split_lines(s: Seq<char>) -> Seq<Seq<char>> {
    crate::text::split_char(s, '\n')
}

/// The lines that are not blank, joined by single spaces.
pub open spec fn join_non_blank(lines: Seq<Seq<char>>) -> Seq<char>
    decreases lines.len(),
{
    if lines.len() == 0 {
        Seq::<char>::empty()
    } else {
        let r = join_non_blank(lines.drop_last());
        let l = lines.last();
        if crate::text::is_blank(l) {
            r
        } else if r.len() == 0 {
            l
        } else {
            r + seq![' '] + l
        }
    }
}

/// An error message on one line: its lines that are not blank, joined by spaces.
pub fn format_error_str(error_str: &str) -> (r: String)
    ensures
        r@ == join_non_blank(split_lines(error_str@)),
{
    let done = crate::text::split_on(error_str, '\n');
    let ghost lines = crate::text::strings_view(done@);
    let mut r = String::new();
    let mut empty = true;
    let mut k: usize = 0;
    assert(lines.take(0) =~= Seq::<Seq<char>>::empty());
    while k < done.len()
        invariant
            k <= done@.len(),
            crate::text::strings_view(done@) == lines,
            r@ == join_non_blank(lines.take(k as int)),
            empty == (r@.len() == 0),
        decreases done@.len() - k,
    {
        assert(lines.take(k + 1).drop_last() == lines.take(k as int));
        assert(lines.take(k + 1).last() == done@[k as int]@);
        if !crate::text::blank(done[k].as_str()) {
            if empty {
                r = done[k].clone();
                empty = false;
            } else {
                crate::text::push_char(&mut r, ' ');
                crate::text::push_str(&mut r, done[k].as_str());
            }
        }
        k += 1;
    }
    assert(lines.take(k as int) == lines);
    r
}

} // verus!

verus! {

/// The name under which an entry sets its variable: the entry's block name,
/// instance and variable joined by dots, after `command:` when the command
/// has a name.
pub open spec fn entry_var_name(command_name: Option<String>, e: UpdateEntry) -> Seq<char> {
    let dotted = dotted_name(e);
    match command_name {
        Some(c) => c@ + seq![':'] + dotted,
        None => dotted,
    }
}

/// The entry's block name, instance and variable, joined by dots.
pub open spec fn dotted_name(e: UpdateEntry) -> Seq<char> {
    match (e.name, e.instance) {
        (Some(n), Some(i)) => n@ + seq!['.'] + i@ + seq!['.'] + e.var@,
        (Some(n), None) => n@ + seq!['.'] + e.var@,
        (None, Some(i)) => i@ + seq!['.'] + e.var@,
        (None, None) => e.var@,
    }
}

/// The value of a variable, empty when it is not set.
pub open spec fn value_or_empty(vars: Map<Seq<char>, Seq<char>>, n: Seq<char>) -> Seq<char> {
    if vars.contains_key(n) {
        vars[n]
    } else {
        Seq::<char>::empty()
    }
}

/// The variables and the changed ones after setting the entries in turn;
/// an entry counts as a change when the value differs from the one before.
pub open spec fn apply_entries(
    vars: Map<Seq<char>, Seq<char>>,
    changed: Map<Seq<char>, Seq<char>>,
    command_name: Option<String>,
    es: Seq<UpdateEntry>,
) -> (Map<Seq<char>, Seq<char>>, Map<Seq<char>, Seq<char>>)
    decreases es.len(),
{
    if es.len() == 0 {
        (vars, changed)
    } else {
        let (v, c) = apply_entries(vars, changed, command_name, es.drop_last());
        let e = es.last();
        let n = entry_var_name(command_name, e);
        (v.insert(n, e.value@), if value_or_empty(v, n) != e.value@ { c.insert(n, e.value@) } else { c })
    }
}

/// The replacements of an input, their texts resolved among `vars`.
pub open spec fn resolved_pairs(v: Seq<(RegexPattern, Placeholder)>, vars: Map<Seq<char>, Seq<char>>) -> Seq<(Seq<char>, Seq<char>)> {
    v.map_values(|p: (RegexPattern, Placeholder)| (p.0.pattern(), spec_resolve(p.1.tokens_view(), vars)))
}

/// The value a configured variable computes among `vars`: its expression
/// resolved, then rewritten by its replacements.
pub open spec fn var_value(d: Var<Placeholder>, vars: Map<Seq<char>, Seq<char>>) -> Seq<char> {
    spec_replace_apply(
        resolved_pairs(d.input.replace.0@, vars),
        d.input.replace_first_match,
        spec_resolve(d.input.value.tokens_view(), vars),
    )
}

/// The last computed value of each configured variable.
pub open spec fn stored_values(defs: Map<Seq<char>, Var<Placeholder>>) -> Map<Seq<char>, Seq<char>> {
    Map::new(|k: Seq<char>| defs.contains_key(k), |k: Seq<char>| defs[k].input.value.value@)
}

/// Variables, changed variables and last computed values after computing the
/// configured variables of `order` in turn: a variable whose value differs
/// from its last one is set under its name and counts as changed.
pub open spec fn run_vars(
    defs: Map<Seq<char>, Var<Placeholder>>,
    order: Seq<Seq<char>>,
    start: (Map<Seq<char>, Seq<char>>, Map<Seq<char>, Seq<char>>, Map<Seq<char>, Seq<char>>),
) -> (Map<Seq<char>, Seq<char>>, Map<Seq<char>, Seq<char>>, Map<Seq<char>, Seq<char>>)
    decreases order.len(),
{
    if order.len() == 0 {
        start
    } else {
        let (v, c, p) = run_vars(defs, order.drop_last(), start);
        let k = order.last();
        let d = defs[k];
        let nv = var_value(d, v);
        if nv != p[k] {
            (v.insert(d.name@, nv), c.insert(d.name@, nv), p.insert(k, nv))
        } else {
            (v, c, p.insert(k, nv))
        }
    }
}

/// Both variables have the same name, expression and replacements.
pub open spec fn same_definition(a: Var<Placeholder>, b: Var<Placeholder>) -> bool {
    &&& a.name@ == b.name@
    &&& a.input.value.tokens_view() == b.input.value.tokens_view()
    &&& a.input.replace_first_match == b.input.replace_first_match
    &&& a.input.replace.0@.len() == b.input.replace.0@.len()
    &&& forall|i: int| 0 <= i < a.input.replace.0@.len() ==> (#[trigger] a.input.replace.0@[i]).0.pattern() == b.input.replace.0@[i].0.pattern()
        && a.input.replace.0@[i].1.tokens_view() == b.input.replace.0@[i].1.tokens_view()
}

/// The state of the bar.
#[derive(Debug)]
pub struct State {
    pub vars: VarMap,
    pub bars: Vec<Bar<String>>,
    /// The error of the last computation of the configured variables.
    pub error: Option<String>,
    /// The last error of each command that failed, by command.
    pub command_errors: VarMap,
    /// Where the pointer is over each window.
    pub pointer_position: NameMap<(i16, i16)>,
    pub config: Config<Placeholder>,
}

/// Every variable of the computing order is configured.
pub open spec fn order_configured(c: Config<Placeholder>) -> bool {
    forall|k: int| 0 <= k < c.var_order@.len() ==> c.vars@.contains_key(#[trigger] c.var_order@[k]@)
}

impl State {
    /// Every variable of the computing order is configured.
    pub open spec fn wf(&self) -> bool {
        order_configured(self.config)
    }

    /// A state with no variables, errors or pointer positions.
    pub fn new(config: Config<Placeholder>) -> (r: Self)
        requires
            order_configured(config),
        ensures
            r.wf(),
            r.config == config,
            r.vars@ == Map::<Seq<char>, Seq<char>>::empty(),
            r.bars@.len() == 0,
            r.error is None,
            r.command_errors@ == Map::<Seq<char>, Seq<char>>::empty(),
            r.pointer_position@ == Map::<Seq<char>, (i16, i16)>::empty(),
    {
        State {
            vars: VarMap::new(),
            bars: Vec::new(),
            error: None,
            command_errors: VarMap::new(),
            pointer_position: NameMap::new(),
            config,
        }
    }

    /// The message to show: the state's error, else the error of the command
    /// whose name comes first, as `command: error`, else none.
    pub fn build_error_msg(&self) -> (r: Option<String>)
        ensures
            match self.error {
                Some(e) => r == Some(e),
                None => if self.command_errors@ == Map::<Seq<char>, Seq<char>>::empty() {
                    r is None
                } else {
                    exists|k: Seq<char>| #[trigger] self.command_errors@.contains_key(k)
                        && (forall|n: Seq<char>| #[trigger] self.command_errors@.contains_key(n) && n != k ==> crate::text::str_lt(k, n))
                        && (r matches Some(m) && m@ == k + seq![':', ' '] + self.command_errors@[k])
                },
            },
    {
        match &self.error {
            Some(e) => Some(e.clone()),
            None => match self.command_errors.first_key_value() {
                Some((cmd, error)) => {
                    let sep = ": ";
                    proof {
                        reveal_strlit(": ");
                    }
                    let mut m = cmd.clone();
                    crate::text::push_str(&mut m, sep);
                    crate::text::push_str(&mut m, error.as_str());
                    assert(self.command_errors@.contains_key(cmd@));
                    Some(m)
                },
                None => None,
            },
        }
    }

    /// Records where the pointer is over a window, or that it left it.
    pub fn handle_motion_update(&mut self, motion_update: MotionUpdate)
        ensures
            motion_applied(*old(self), motion_update, *final(self)),
    {
        match motion_update.position {
            Some(position) => {
                self.pointer_position.insert(motion_update.window_name, position);
            },
            None => {
                let _ = self.pointer_position.take(motion_update.window_name.as_str());
            },
        }
    }
}

} // verus!

verus! {

/// The name under which an entry sets its variable (see `entry_var_name`).
fn entry_name(command_name: &Option<String>, e: &UpdateEntry) -> (r: String)
    ensures
        r@ == entry_var_name(*command_name, *e),
{
    let mut r = match command_name {
        Some(c) => {
            let mut s = c.clone();
            crate::text::push_char(&mut s, ':');
            s
        },
        None => String::new(),
    };
    let ghost start = r@;
    match &e.name {
        Some(n) => {
            crate::text::push_str(&mut r, n.as_str());
            crate::text::push_char(&mut r, '.');
        },
        None => {},
    }
    match &e.instance {
        Some(i) => {
            crate::text::push_str(&mut r, i.as_str());
            crate::text::push_char(&mut r, '.');
        },
        None => {},
    }
    crate::text::push_str(&mut r, e.var.as_str());
    proof {
        assert(r@ =~= start + dotted_name(*e));
        match command_name {
            Some(c) => assert(start =~= c@ + seq![':']),
            None => assert(start =~= Seq::<char>::empty()),
        }
    }
    r
}

proof fn lemma_resolved_pairs(new: Seq<(RegexPattern, Placeholder)>, old: Seq<(RegexPattern, Placeholder)>, vars: Map<Seq<char>, Seq<char>>)
    requires
        crate::config::replace_resolved(new, old, vars),
    ensures
        crate::config::replace_pairs(new) == resolved_pairs(old, vars),
{
    assert(crate::config::replace_pairs(new) =~= resolved_pairs(old, vars));
}

proof fn lemma_same_definition_value(a: Var<Placeholder>, b: Var<Placeholder>, vars: Map<Seq<char>, Seq<char>>)
    requires
        same_definition(a, b),
    ensures
        var_value(a, vars) == var_value(b, vars),
{
    assert(resolved_pairs(a.input.replace.0@, vars) =~= resolved_pairs(b.input.replace.0@, vars));
}


/// What applying the values `u` to the state `o` gives: the state `n` and
/// the changed variables `r` (see `State::handle_var_update`).
pub open spec fn var_update_applied(o: State, u: VarUpdate, n: State, r: Option<VarSnapshotUpdate>) -> bool {
    let (v1, c1) = apply_entries(o.vars@, Map::empty(), u.command_name, u.entries@);
    let (v2, c2, p2) = run_vars(
        o.config.vars@,
        crate::text::strings_view(o.config.var_order@),
        (v1, c1, stored_values(o.config.vars@)),
    );
    &&& n.vars@ == v2
    &&& if c2 == Map::<Seq<char>, Seq<char>>::empty() {
        r is None
    } else {
        r matches Some(s) && s.vars@ == c2
    }
    &&& n.config.vars@.dom() == o.config.vars@.dom()
    &&& forall|k: Seq<char>| #[trigger] n.config.vars@.contains_key(k)
        ==> same_definition(n.config.vars@[k], o.config.vars@[k])
            && n.config.vars@[k].input.value.value@ == p2[k]
    &&& n.error is None
    &&& n.command_errors@ == match u.command_name {
        Some(c) => match u.error {
            Some(e) => o.command_errors@.insert(
                c@,
                join_non_blank(split_lines(seq!['S', 't', 'a', 't', 'e', ' ', 'e', 'r', 'r', 'o', 'r', ':', ' '] + e@)),
            ),
            None => o.command_errors@.remove(c@),
        },
        None => o.command_errors@,
    }
    &&& n.wf()
    &&& n.config.var_order == o.config.var_order
    &&& n.config.bar == o.config.bar
    &&& n.config.blocks == o.config.blocks
    &&& n.config.commands == o.config.commands
    &&& n.bars == o.bars
    &&& n.pointer_position == o.pointer_position
}

/// What recording a pointer motion in the state `o` gives: the state `n`.
pub open spec fn motion_applied(o: State, m: MotionUpdate, n: State) -> bool {
    &&& n.pointer_position@ == match m.position {
        Some(p) => o.pointer_position@.insert(m.window_name@, p),
        None => o.pointer_position@.remove(m.window_name@),
    }
    &&& n.vars == o.vars
    &&& n.error == o.error
    &&& n.command_errors == o.command_errors
    &&& n.config == o.config
    &&& n.bars == o.bars
}

impl State {
    /// Applies the values a command reported: each entry sets its variable
    /// (see `entry_var_name`); then the configured variables are computed
    /// again in their order, each set under its name when its value changed;
    /// the command's error is recorded, or cleared when it reported none.
    /// Gives back the variables whose values changed, if any did.
    pub fn handle_var_update(&mut self, var_update: VarUpdate) -> (r: Option<VarSnapshotUpdate>)
        requires
            old(self).wf(),
        ensures
            var_update_applied(*old(self), var_update, *final(self), r),
    {
        let ghost vars0 = self.vars@;
        let ghost defs = self.config.vars@;
        let ghost es = var_update.entries@;
        let mut changed = VarMap::new();
        let mut i: usize = 0;
        assert(es.take(0) =~= Seq::<UpdateEntry>::empty());
        while i < var_update.entries.len()
            invariant
                i <= es.len(),
                var_update.entries@ == es,
                (self.vars@, changed@) == apply_entries(vars0, Map::empty(), var_update.command_name, es.take(i as int)),
                self.config.vars@ == defs,
                old(self).wf(),
                self.config == old(self).config,
                self.bars == old(self).bars,
                self.pointer_position == old(self).pointer_position,
                self.command_errors == old(self).command_errors,
            decreases es.len() - i,
        {
            assert(es.take(i + 1).drop_last() == es.take(i as int));
            assert(es.take(i + 1).last() == es[i as int]);
            let e = &var_update.entries[i];
            let name = entry_name(&var_update.command_name, e);
            let ghost v_before = self.vars@;
            let old_value = self.vars.insert(name.clone(), e.value.clone());
            let empty = "";
            proof {
                reveal_strlit("");
                assert(empty@ =~= Seq::<char>::empty());
            }
            let differs = match &old_value {
                Some(v) => !crate::text::str_eq(v.as_str(), e.value.as_str()),
                None => !crate::text::str_eq(empty, e.value.as_str()),
            };
            assert(differs == (value_or_empty(v_before, name@) != e.value@));
            if differs {
                changed.insert(name, e.value.clone());
            }
            i += 1;
        }
        assert(es.take(i as int) == es);

        self.error = None;
        let ghost order = crate::text::strings_view(self.config.var_order@);
        let ghost start = (self.vars@, changed@, stored_values(defs));
        let mut k: usize = 0;
        assert(order.take(0) =~= Seq::<Seq<char>>::empty());
        assert(stored_values(self.config.vars@) =~= stored_values(defs));
        while k < self.config.var_order.len()
            invariant
                k <= order.len(),
                order == crate::text::strings_view(self.config.var_order@),
                order_configured(self.config),
                self.config.var_order == old(self).config.var_order,
                self.config.bar == old(self).config.bar,
                self.config.blocks == old(self).config.blocks,
                self.config.commands == old(self).config.commands,
                self.bars == old(self).bars,
                self.pointer_position == old(self).pointer_position,
                self.command_errors == old(self).command_errors,
                self.error is None,
                self.config.vars@.dom() == defs.dom(),
                forall|x: Seq<char>| #[trigger] self.config.vars@.contains_key(x) ==> same_definition(self.config.vars@[x], defs[x]),
                (self.vars@, changed@, stored_values(self.config.vars@)) == run_vars(defs, order.take(k as int), start),
            decreases order.len() - k,
        {
            let ghost key = order[k as int];
            let ghost v_before = self.vars@;
            let ghost c_before = changed@;
            let ghost p_before = stored_values(self.config.vars@);
            let ghost cv_before = self.config.vars@;
            assert(order.take(k + 1).drop_last() == order.take(k as int));
            assert(order.take(k + 1).last() == key);
            assert(self.config.var_order@[k as int]@ == key);
            assert(self.config.vars@.contains_key(key));
            let name_k = self.config.var_order[k].clone();
            match self.config.vars.take(name_k.as_str()) {
                Some(var) => {
                    let mut var = var;
                    let ghost var0 = var;
                    let res = var.input.update(&self.vars);
                    proof {
                        lemma_resolved_pairs(var.input.replace.0@, var0.input.replace.0@, v_before);
                        lemma_same_definition_value(var0, defs[key], v_before);
                        assert(var.input.value.value@ == var_value(defs[key], v_before));
                        assert(same_definition(var, var0));
                    }
                    let updated = match res {
                        Ok(u) => u,
                        Err(_) => false,
                    };
                    if updated {
                        let value = var.input.value.value.clone();
                        self.vars.insert(var.name.clone(), value.clone());
                        changed.insert(var.name.clone(), value);
                    }
                    self.config.vars.insert(name_k, var);
                    proof {
                        assert(self.config.vars@ == cv_before.insert(key, var));
                        assert(self.config.vars@.dom() =~= defs.dom());
                        assert(stored_values(self.config.vars@) =~= p_before.insert(key, var_value(defs[key], v_before)));
                    }
                },
                None => {
                    assert(false);
                },
            }
            k += 1;
        }
        assert(order.take(k as int) == order);

        match var_update.command_name {
            Some(command_name) => match var_update.error {
                Some(error) => {
                    let prefix = "State error: ";
                    proof {
                        reveal_strlit("State error: ");
                    }
                    let mut msg = crate::text::owned(prefix);
                    crate::text::push_str(&mut msg, error.as_str());
                    assert(msg@ =~= seq!['S', 't', 'a', 't', 'e', ' ', 'e', 'r', 'r', 'o', 'r', ':', ' '] + error@);
                    self.command_errors.insert(command_name, format_error_str(msg.as_str()));
                },
                None => {
                    let _ = self.command_errors.remove(command_name.as_str());
                },
            },
            None => {},
        }

        if changed.is_empty() {
            None
        } else {
            Some(VarSnapshotUpdate { vars: changed })
        }
    }
}

} // verus!

verus! {

impl State {
    /// Applies an update of either kind; gives back the variables whose
    /// values changed, if any did.
    pub fn handle_state_update(&mut self, state_update: Update) -> (r: Option<VarSnapshotUpdate>)
        requires
            old(self).wf(),
        ensures
            match state_update {
                Update::VarUpdate(u) => var_update_applied(*old(self), u, *final(self), r),
                Update::MotionUpdate(m) => motion_applied(*old(self), m, *final(self)) && r is None,
            },
    {
        match state_update {
            Update::VarUpdate(u) => self.handle_var_update(u),
            Update::MotionUpdate(u) => {
                self.handle_motion_update(u);
                None
            },
        }
    }
}

} // verus!

verus! {

proof fn lemma_join_non_blank_lacks(lines: Seq<Seq<char>>, c: char)
    requires
        c != ' ',
        forall|i: int, j: int| 0 <= i < lines.len() && 0 <= j < lines[i].len() ==> lines[i][j] != c,
    ensures
        !join_non_blank(lines).contains(c),
    decreases lines.len(),
{
    if lines.len() > 0 {
        let t = lines.drop_last();
        assert forall|i: int, j: int| 0 <= i < t.len() && 0 <= j < t[i].len() implies t[i][j] != c by {
            assert(t[i] == lines[i]);
        }
        lemma_join_non_blank_lacks(t, c);
        let l = lines.last();
        assert forall|j: int| 0 <= j < l.len() implies l[j] != c by {
            assert(lines[lines.len() - 1] == l);
        }
        let r = join_non_blank(t);
        if !crate::text::is_blank(l) && r.len() > 0 {
            let x = r + seq![' '] + l;
            assert forall|k: int| 0 <= k < x.len() implies x[k] != c by {
                if k < r.len() {
                    assert(x[k] == r[k]);
                } else if k > r.len() {
                    assert(x[k] == l[k - r.len() - 1]);
                }
            }
        }
    }
}

/// A formatted error message is one line: it holds no line feed.
pub proof fn lemma_format_error_one_line(s: Seq<char>)
    ensures
        !join_non_blank(split_lines(s)).contains('\n'),
{
    crate::text::lemma_split_pieces_lack(s, '\n');
    lemma_join_non_blank_lacks(split_lines(s), '\n');
}


proof fn lemma_run_vars_keeps(
    defs: Map<Seq<char>, Var<Placeholder>>,
    order: Seq<Seq<char>>,
    start: (Map<Seq<char>, Seq<char>>, Map<Seq<char>, Seq<char>>, Map<Seq<char>, Seq<char>>),
    key: Seq<char>,
)
    requires
        forall|j: int| 0 <= j < order.len() ==> defs[#[trigger] order[j]].name@ != key,
    ensures
        run_vars(defs, order, start).0.contains_key(key) == start.0.contains_key(key),
        run_vars(defs, order, start).0[key] == start.0[key],
    decreases order.len(),
{
    if order.len() > 0 {
        let t = order.drop_last();
        assert forall|j: int| 0 <= j < t.len() implies defs[#[trigger] t[j]].name@ != key by {
            assert(t[j] == order[j]);
        }
        assert(defs[order[order.len() - 1]].name@ != key);
        lemma_run_vars_keeps(defs, t, start, key);
    }
}

/// The variable an entry sets is named `command:name.instance.var`: the
/// command's name and a colon when it has one, then the block name and a
/// dot, then the instance and a dot, each when the entry has it (the block
/// name before the instance), then the variable. After a command's update,
/// the last entry's value stands under that name, unless a configured
/// variable of that very name is computed over it.
pub proof fn lemma_entry_sets_dotted_var(o: State, u: VarUpdate, n: State, r: Option<VarSnapshotUpdate>)
    requires
        var_update_applied(o, u, n, r),
        u.entries@.len() > 0,
        forall|j: int| 0 <= j < o.config.var_order@.len() ==> o.config.vars@[(#[trigger] o.config.var_order@[j])@].name@
            != (match u.command_name {
            Some(c) => c@ + seq![':'],
            None => Seq::<char>::empty(),
        }) + (match u.entries@.last().name {
            Some(nm) => nm@ + seq!['.'],
            None => Seq::<char>::empty(),
        }) + (match u.entries@.last().instance {
            Some(i) => i@ + seq!['.'],
            None => Seq::<char>::empty(),
        }) + u.entries@.last().var@,
    ensures
        n.vars@.contains_key((match u.command_name {
            Some(c) => c@ + seq![':'],
            None => Seq::<char>::empty(),
        }) + (match u.entries@.last().name {
            Some(nm) => nm@ + seq!['.'],
            None => Seq::<char>::empty(),
        }) + (match u.entries@.last().instance {
            Some(i) => i@ + seq!['.'],
            None => Seq::<char>::empty(),
        }) + u.entries@.last().var@),
        n.vars@[(match u.command_name {
            Some(c) => c@ + seq![':'],
            None => Seq::<char>::empty(),
        }) + (match u.entries@.last().name {
            Some(nm) => nm@ + seq!['.'],
            None => Seq::<char>::empty(),
        }) + (match u.entries@.last().instance {
            Some(i) => i@ + seq!['.'],
            None => Seq::<char>::empty(),
        }) + u.entries@.last().var@] == u.entries@.last().value@,
{
    let e = u.entries@.last();
    let key = (match u.command_name {
            Some(c) => c@ + seq![':'],
            None => Seq::<char>::empty(),
        }) + (match u.entries@.last().name {
            Some(nm) => nm@ + seq!['.'],
            None => Seq::<char>::empty(),
        }) + (match u.entries@.last().instance {
            Some(i) => i@ + seq!['.'],
            None => Seq::<char>::empty(),
        }) + u.entries@.last().var@;
    assert(entry_var_name(u.command_name, e) =~= key);
    let (v1, c1) = apply_entries(o.vars@, Map::empty(), u.command_name, u.entries@);
    assert(v1.contains_key(key) && v1[key] == e.value@);
    let order = crate::text::strings_view(o.config.var_order@);
    assert forall|j: int| 0 <= j < order.len() implies o.config.vars@[#[trigger] order[j]].name@ != key by {
        assert(order[j] == o.config.var_order@[j]@);
    }
    lemma_run_vars_keeps(o.config.vars@, order, (v1, c1, stored_values(o.config.vars@)), key);
}

} // verus!
