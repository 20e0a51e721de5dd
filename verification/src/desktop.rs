//! The desktop helper: workspaces and the active window's title, as
//! variables and as i3bar blocks.

use vstd::prelude::*;
use std::collections::HashMap;
use crate::decimal::{decimal, usize_to_string};
use crate::keyboard::active_layout;
use crate::protocol::{Block, I3Value};
use crate::state::{Update, UpdateEntry, VarUpdate};
use crate::text::{join, join_with, owned, push_str, strings_view};

verus! {

/// The workspaces of a desktop and the current one.
#[derive(Debug)]
pub struct Workspaces {
    pub current: usize,
    pub names: Vec<String>,
}

/// The workspaces and the active window's title.
#[derive(Debug)]
pub struct DesktopState {
    pub workspaces: Workspaces,
    pub active_window_title: String,
}

/// `e` sets variable `var` of block `workspace` to `value`.
pub open spec fn is_workspace_entry(e: UpdateEntry, var: Seq<char>, value: Seq<char>) -> bool {
    &&& e.name matches Some(n) && n@ == seq!['w', 'o', 'r', 'k', 's', 'p', 'a', 'c', 'e']
    &&& e.instance is None
    &&& e.var@ == var
    &&& e.value@ == value
}

fn entry(name: &str, var: &str, value: String) -> (r: UpdateEntry)
    ensures
        r.name matches Some(n) && n@ == name@,
        r.instance is None,
        r.var@ == var@,
        r.value == value,
{
    UpdateEntry { name: Some(owned(name)), instance: None, var: owned(var), value }
}

impl Workspaces {
    /// The update of the workspace variables: the index of the current
    /// workspace (`active`), its name (`value`, `?` when out of the list)
    /// and all names joined by commas (`variants`).
    pub fn to_state_update(self) -> (r: Update)
        ensures
            r matches Update::VarUpdate(u) && u.command_name is None && u.error is None
                && u.entries@.len() == 3
                && is_workspace_entry(u.entries@[0], seq!['a', 'c', 't', 'i', 'v', 'e'], decimal(self.current as nat))
                && is_workspace_entry(u.entries@[1], seq!['v', 'a', 'l', 'u', 'e'], active_layout(self.current, self.names@))
                && is_workspace_entry(u.entries@[2], seq!['v', 'a', 'r', 'i', 'a', 'n', 't', 's'],
                    join_with(strings_view(self.names@), seq![','])),
    {
        let ws = "workspace";
        let active = "active";
        let value = "value";
        let variants = "variants";
        let comma = ",";
        let q = "?";
        proof {
            reveal_strlit("workspace");
            reveal_strlit("active");
            reveal_strlit("value");
            reveal_strlit("variants");
            reveal_strlit(",");
            reveal_strlit("?");
            assert(ws@ =~= seq!['w', 'o', 'r', 'k', 's', 'p', 'a', 'c', 'e']);
            assert(active@ =~= seq!['a', 'c', 't', 'i', 'v', 'e']);
            assert(value@ =~= seq!['v', 'a', 'l', 'u', 'e']);
            assert(variants@ =~= seq!['v', 'a', 'r', 'i', 'a', 'n', 't', 's']);
            assert(comma@ =~= seq![',']);
            assert(q@ =~= seq!['?']);
        }
        let current_name = if self.current < self.names.len() {
            self.names[self.current].clone()
        } else {
            owned(q)
        };
        let mut entries: Vec<UpdateEntry> = Vec::new();
        entries.push(entry(ws, active, usize_to_string(self.current)));
        entries.push(entry(ws, value, current_name));
        entries.push(entry(ws, variants, join(&self.names, comma)));
        Update::VarUpdate(VarUpdate { command_name: None, entries, error: None })
    }
}

/// The blocks that the desktop helper prints: the workspace block
/// (`workspace: <name>`, with `active`, `value` and `variants`) and the
/// window title block (`window: <title>`, with `value`).
pub fn desktop_blocks(state: &DesktopState) -> (r: Vec<Block>)
    ensures
        r@.len() == 2,
        r@[0].name matches Some(n) && n@ == seq!['w', 'o', 'r', 'k', 's', 'p', 'a', 'c', 'e'],
        r@[0].instance is None,
        r@[0].full_text@ == seq!['w', 'o', 'r', 'k', 's', 'p', 'a', 'c', 'e', ':', ' ']
            + active_layout(state.workspaces.current, state.workspaces.names@),
        r@[0].other@.len() == 3,
        r@[0].other@[0].0@ == seq!['a', 'c', 't', 'i', 'v', 'e'],
        r@[0].other@[0].1 matches I3Value::Json(x) && x@ == decimal(state.workspaces.current as nat),
        r@[0].other@[1].0@ == seq!['v', 'a', 'l', 'u', 'e'],
        r@[0].other@[1].1 matches I3Value::Str(x) && x@ == active_layout(state.workspaces.current, state.workspaces.names@),
        r@[0].other@[2].0@ == seq!['v', 'a', 'r', 'i', 'a', 'n', 't', 's'],
        r@[0].other@[2].1 matches I3Value::Str(x) && x@ == join_with(strings_view(state.workspaces.names@), seq![',']),
        r@[1].name matches Some(n) && n@ == seq!['w', 'i', 'n', 'd', 'o', 'w', '_', 't', 'i', 't', 'l', 'e'],
        r@[1].instance is None,
        r@[1].full_text@ == seq!['w', 'i', 'n', 'd', 'o', 'w', ':', ' '] + state.active_window_title@,
        r@[1].other@.len() == 1,
        r@[1].other@[0].0@ == seq!['v', 'a', 'l', 'u', 'e'],
        r@[1].other@[0].1 matches I3Value::Str(x) && x@ == state.active_window_title@,
{
    let ws = "workspace";
    let ws_prefix = "workspace: ";
    let wt = "window_title";
    let wt_prefix = "window: ";
    let active = "active";
    let value = "value";
    let variants = "variants";
    let comma = ",";
    let q = "?";
    proof {
        reveal_strlit("workspace");
        reveal_strlit("workspace: ");
        reveal_strlit("window_title");
        reveal_strlit("window: ");
        reveal_strlit("active");
        reveal_strlit("value");
        reveal_strlit("variants");
        reveal_strlit(",");
        reveal_strlit("?");
        assert(ws@ =~= seq!['w', 'o', 'r', 'k', 's', 'p', 'a', 'c', 'e']);
        assert(ws_prefix@ =~= seq!['w', 'o', 'r', 'k', 's', 'p', 'a', 'c', 'e', ':', ' ']);
        assert(wt@ =~= seq!['w', 'i', 'n', 'd', 'o', 'w', '_', 't', 'i', 't', 'l', 'e']);
        assert(wt_prefix@ =~= seq!['w', 'i', 'n', 'd', 'o', 'w', ':', ' ']);
        assert(active@ =~= seq!['a', 'c', 't', 'i', 'v', 'e']);
        assert(value@ =~= seq!['v', 'a', 'l', 'u', 'e']);
        assert(variants@ =~= seq!['v', 'a', 'r', 'i', 'a', 'n', 't', 's']);
        assert(comma@ =~= seq![',']);
        assert(q@ =~= seq!['?']);
    }
    let names = &state.workspaces.names;
    let current = state.workspaces.current;
    let workspace_value = if current < names.len() {
        names[current].clone()
    } else {
        owned(q)
    };
    let mut other: Vec<(String, I3Value)> = Vec::new();
    other.push((owned(active), I3Value::Json(usize_to_string(current))));
    other.push((owned(value), I3Value::Str(workspace_value.clone())));
    other.push((owned(variants), I3Value::Str(join(names, comma))));
    let mut full_text = owned(ws_prefix);
    push_str(&mut full_text, workspace_value.as_str());
    let mut title_other: Vec<(String, I3Value)> = Vec::new();
    title_other.push((owned(value), I3Value::Str(state.active_window_title.clone())));
    let mut title_text = owned(wt_prefix);
    push_str(&mut title_text, state.active_window_title.as_str());
    let mut blocks: Vec<Block> = Vec::new();
    blocks.push(Block { full_text, name: Some(owned(ws)), instance: None, other });
    blocks.push(Block { full_text: title_text, name: Some(owned(wt)), instance: None, other: title_other });
    blocks
}

} // verus!

verus! {

/// The texts of the pieces, those that are not empty.
pub open spec fn nonempty_texts(pieces: Seq<Seq<u8>>) -> Seq<Seq<char>>
    decreases pieces.len(),
{
    if pieces.len() == 0 {
        Seq::<Seq<char>>::empty()
    } else {
        let rest = nonempty_texts(pieces.drop_last());
        let t = crate::text::utf8_lossy(pieces.last());
        if t.len() > 0 {
            rest.push(t)
        } else {
            rest
        }
    }
}

/// The names of the workspaces in the desktop-names property: the pieces
/// between NUL bytes, read as UTF-8 (invalid sequences replaced), empty ones dropped.
pub fn workspace_names(buf: &[u8]) -> (r: Vec<String>)
    ensures
        strings_view(r@) == nonempty_texts(crate::text::split_bytes(buf@, 0)),
{
    let pieces = crate::text::split_bytes_on(buf, 0);
    let ghost ps = pieces@.map_values(|p: Vec<u8>| p@);
    let mut r: Vec<String> = Vec::new();
    let mut i: usize = 0;
    assert(ps.take(0) =~= Seq::<Seq<u8>>::empty());
    while i < pieces.len()
        invariant
            i <= pieces@.len(),
            ps == pieces@.map_values(|p: Vec<u8>| p@),
            strings_view(r@) == nonempty_texts(ps.take(i as int)),
        decreases pieces@.len() - i,
    {
        assert(ps.take(i + 1).drop_last() == ps.take(i as int));
        assert(ps.take(i + 1).last() == pieces@[i as int]@);
        let t = crate::text::from_utf8_lossy(pieces[i].as_slice());
        if crate::text::chars_of(t.as_str()).len() > 0 {
            let ghost before = r@;
            r.push(t);
            assert(strings_view(r@) =~= strings_view(before).push(t@));
        }
        i += 1;
    }
    assert(ps.take(i as int) == ps);
    r
}

} // verus!

verus! {

broadcast use vstd::std_specs::hash::group_hash_axioms;

/// The protocol's number of the state of an activated window.
pub const TOPLEVEL_STATE_ACTIVATED: u32 = 2;

/// What the desktop helper knows of a window.
#[derive(Debug)]
pub struct ToplevelInfo {
    pub title: String,
    pub app_id: String,
    /// The window has the activated state.
    pub is_active: bool,
}

impl Default for ToplevelInfo {
    fn default() -> (r: Self)
        ensures
            r.title@ == Seq::<char>::empty(),
            r.app_id@ == Seq::<char>::empty(),
            !r.is_active,
    {
        ToplevelInfo { title: String::new(), app_id: String::new(), is_active: false }
    }
}

/// An event of the window manager's toplevel list.
#[derive(Debug)]
pub enum ManagerEvent {
    /// A window appeared, known to the protocol by `object_id`.
    Toplevel { object_id: u32 },
    Finished,
    Other,
}

/// An event about one window.
#[derive(Debug)]
pub enum ToplevelEvent {
    Title(String),
    AppId(String),
    /// The window's states, as the protocol's numbers.
    State(Vec<u32>),
    /// The events of a change are all sent.
    Done,
    Closed,
    Other,
}

/// The windows known under Wayland, and whether a change waits to be printed.
#[derive(Debug)]
pub struct WaylandState {
    /// The windows, by an id of our own.
    pub toplevels: HashMap<u32, ToplevelInfo>,
    /// The id the next window gets.
    pub next_id: u32,
    /// Our id of each window, by the protocol's object id.
    pub object_to_id: HashMap<u32, u32>,
    /// A window's activation changed since the last print.
    pub needs_print: bool,
}

/// Whether the list holds `x`.
fn contains_u32(v: &Vec<u32>, x: u32) -> (r: bool)
    ensures
        r == v@.contains(x),
{
    let mut i: usize = 0;
    while i < v.len()
        invariant
            i <= v@.len(),
            forall|j: int| 0 <= j < i ==> v@[j] != x,
        decreases v@.len() - i,
    {
        if v[i] == x {
            assert(v@[i as int] == x);
            return true;
        }
        i += 1;
    }
    false
}

/// The window has the activated state.
pub open spec fn has_activated(states: Seq<u32>) -> bool {
    states.contains(TOPLEVEL_STATE_ACTIVATED)
}

impl WaylandState {
    /// No windows.
    pub fn new() -> (r: Self)
        ensures
            r.toplevels@ == Map::<u32, ToplevelInfo>::empty(),
            r.next_id == 0,
            r.object_to_id@ == Map::<u32, u32>::empty(),
            !r.needs_print,
    {
        WaylandState { toplevels: HashMap::new(), next_id: 0, object_to_id: HashMap::new(), needs_print: false }
    }

    /// The title of an active window, empty when none is active (with
    /// several, the first the map yields).
    pub fn get_active_title(&self) -> (r: String)
        ensures
            (exists|id: u32| #[trigger] self.toplevels@.contains_key(id) && self.toplevels@[id].is_active
                && self.toplevels@[id].title == r)
            || ((forall|id: u32| #[trigger] self.toplevels@.contains_key(id) ==> !self.toplevels@[id].is_active)
                && r@ == Seq::<char>::empty()),
    {
        let ghost m = self.toplevels@;
        let ghost mut checked_all = false;
        let ghost mut all_items: Seq<ToplevelInfo> = Seq::empty();
        let n = self.toplevels.len();
        for t in it: self.toplevels.values()
            invariant
                m == self.toplevels@,
                it.seq().len() == n,
                it.seq().unref().to_set() == m.values(),
                forall|j: int| 0 <= j < it.index() ==> !(#[trigger] it.seq()[j]).is_active,
                all_items == it.seq().unref().take(it.index() as int),
                checked_all ==> (forall|j: int| 0 <= j < all_items.len() ==> !(#[trigger] all_items[j]).is_active)
                    && all_items.to_set() == m.values(),
                checked_all || it.index() < it.seq().len() || m.values() == Set::<ToplevelInfo>::empty(),
                all_items.len() == it.index(),
        {
            if t.is_active {
                proof {
                    let k = it.index();
                    assert(it.seq().unref()[k] == *t);
                    assert(it.seq().unref().to_set().contains(*t));
                    assert(m.values().contains(*t));
                    let id = choose|id: u32| m.contains_key(id) && m[id] == *t;
                    assert(self.toplevels@.contains_key(id));
                }
                return t.title.clone();
            }
            proof {
                assert(it.seq().unref().take(it.index() + 1) =~= all_items.push(*t));
                all_items = all_items.push(*t);
                if all_items.len() == n {
                    assert(all_items =~= it.seq().unref());
                    checked_all = true;
                    assert forall|j: int| 0 <= j < all_items.len() implies !(#[trigger] all_items[j]).is_active by {
                        assert(all_items[j] == *it.seq()[j]);
                    }
                }
            }
        }
        proof {
            assert forall|id: u32| #[trigger] self.toplevels@.contains_key(id) implies !self.toplevels@[id].is_active by {
                assert(m.values().contains(m[id]));
                if checked_all {
                    assert(all_items.to_set().contains(m[id]));
                    let j = choose|j: int| 0 <= j < all_items.len() && all_items[j] == m[id];
                    assert(!all_items[j].is_active);
                }
            }
        }
        String::new()
    }

    /// What the helper prints: one `default` workspace and the active title.
    pub fn desktop_state(&self) -> (r: DesktopState)
        ensures
            r.workspaces.current == 0,
            strings_view(r.workspaces.names@) == seq![seq!['d', 'e', 'f', 'a', 'u', 'l', 't']],
            (exists|id: u32| #[trigger] self.toplevels@.contains_key(id) && self.toplevels@[id].is_active
                && self.toplevels@[id].title == r.active_window_title)
            || ((forall|id: u32| #[trigger] self.toplevels@.contains_key(id) ==> !self.toplevels@[id].is_active)
                && r.active_window_title@ == Seq::<char>::empty()),
    {
        let d = "default";
        proof {
            reveal_strlit("default");
            assert(d@ =~= seq!['d', 'e', 'f', 'a', 'u', 'l', 't']);
        }
        let mut names: Vec<String> = Vec::new();
        names.push(owned(d));
        assert(strings_view(names@) =~= seq![seq!['d', 'e', 'f', 'a', 'u', 'l', 't']]);
        DesktopState { workspaces: Workspaces { current: 0, names }, active_window_title: self.get_active_title() }
    }

    /// Records a new window under the next id.
    pub fn handle_manager_event(&mut self, event: ManagerEvent)
        requires
            old(self).next_id < u32::MAX,
        ensures
            match event {
                ManagerEvent::Toplevel { object_id } => {
                    &&& final(self).next_id == old(self).next_id + 1
                    &&& final(self).object_to_id@ == old(self).object_to_id@.insert(object_id, old(self).next_id)
                    &&& final(self).toplevels@.dom() == old(self).toplevels@.dom().insert(old(self).next_id)
                    &&& forall|id: u32| #[trigger] final(self).toplevels@.contains_key(id) && id != old(self).next_id
                        ==> final(self).toplevels@[id] == old(self).toplevels@[id]
                    &&& final(self).toplevels@[old(self).next_id].title@ == Seq::<char>::empty()
                    &&& final(self).toplevels@[old(self).next_id].app_id@ == Seq::<char>::empty()
                    &&& !final(self).toplevels@[old(self).next_id].is_active
                    &&& final(self).needs_print == old(self).needs_print
                },
                _ => *final(self) == *old(self),
            },
    {
        match event {
            ManagerEvent::Toplevel { object_id } => {
                let id = self.next_id;
                self.next_id = self.next_id + 1;
                self.object_to_id.insert(object_id, id);
                self.toplevels.insert(id, ToplevelInfo::default());
            },
            _ => {},
        }
    }

    /// Applies an event about the window known to the protocol by
    /// `object_id`; tells whether the state must be printed now. Events of
    /// unknown windows are ignored.
    pub fn handle_toplevel_event(&mut self, object_id: u32, event: ToplevelEvent) -> (r: bool)
        ensures
            final(self).next_id == old(self).next_id,
            !old(self).object_to_id@.contains_key(object_id) ==> *final(self) == *old(self) && !r,
            old(self).object_to_id@.contains_key(object_id) ==> {
                let id = old(self).object_to_id@[object_id];
                match event {
                    ToplevelEvent::Title(t) => !r && final(self).needs_print == old(self).needs_print
                        && final(self).object_to_id@ == old(self).object_to_id@
                        && final(self).toplevels@ == (if old(self).toplevels@.contains_key(id) {
                            old(self).toplevels@.insert(id, ToplevelInfo { title: t, ..old(self).toplevels@[id] })
                        } else {
                            old(self).toplevels@
                        }),
                    ToplevelEvent::AppId(a) => !r && final(self).needs_print == old(self).needs_print
                        && final(self).object_to_id@ == old(self).object_to_id@
                        && final(self).toplevels@ == (if old(self).toplevels@.contains_key(id) {
                            old(self).toplevels@.insert(id, ToplevelInfo { app_id: a, ..old(self).toplevels@[id] })
                        } else {
                            old(self).toplevels@
                        }),
                    ToplevelEvent::State(states) => !r && final(self).object_to_id@ == old(self).object_to_id@
                        && if old(self).toplevels@.contains_key(id)
                            && old(self).toplevels@[id].is_active != has_activated(states@) {
                            final(self).toplevels@ == old(self).toplevels@.insert(
                                id,
                                ToplevelInfo { is_active: has_activated(states@), ..old(self).toplevels@[id] },
                            ) && final(self).needs_print
                        } else {
                            final(self).toplevels@ == old(self).toplevels@
                                && final(self).needs_print == old(self).needs_print
                        },
                    ToplevelEvent::Done => r == old(self).needs_print && !final(self).needs_print
                        && final(self).toplevels@ == old(self).toplevels@
                        && final(self).object_to_id@ == old(self).object_to_id@,
                    ToplevelEvent::Closed => r && final(self).needs_print == old(self).needs_print
                        && final(self).toplevels@ == old(self).toplevels@.remove(id)
                        && final(self).object_to_id@ == old(self).object_to_id@.remove(object_id),
                    ToplevelEvent::Other => !r && *final(self) == *old(self),
                }
            },
    {
        let id = match self.object_to_id.get(&object_id) {
            Some(id) => *id,
            None => {
                return false;
            },
        };
        match event {
            ToplevelEvent::Title(title) => {
                match self.toplevels.remove(&id) {
                    Some(info) => {
                        self.toplevels.insert(id, ToplevelInfo { title, ..info });
                    },
                    None => {},
                }
                false
            },
            ToplevelEvent::AppId(app_id) => {
                match self.toplevels.remove(&id) {
                    Some(info) => {
                        self.toplevels.insert(id, ToplevelInfo { app_id, ..info });
                    },
                    None => {},
                }
                false
            },
            ToplevelEvent::State(states) => {
                let is_active = contains_u32(&states, TOPLEVEL_STATE_ACTIVATED);
                let ghost before = self.toplevels@;
                match self.toplevels.remove(&id) {
                    Some(info) => {
                        if info.is_active != is_active {
                            self.toplevels.insert(id, ToplevelInfo { is_active, ..info });
                            self.needs_print = true;
                        } else {
                            self.toplevels.insert(id, info);
                            assert(self.toplevels@ =~= before);
                        }
                    },
                    None => {},
                }
                false
            },
            ToplevelEvent::Done => {
                let print = self.needs_print;
                self.needs_print = false;
                print
            },
            ToplevelEvent::Closed => {
                self.toplevels.remove(&id);
                self.object_to_id.remove(&object_id);
                true
            },
            ToplevelEvent::Other => false,
        }
    }
}

/// A node of Sway's tree of containers.
#[derive(Debug)]
pub struct SwayNode {
    pub focused: bool,
    pub name: Option<String>,
    pub nodes: Vec<SwayNode>,
    pub floating_nodes: Vec<SwayNode>,
}

/// The name of the focused node: the node itself when it is focused (none
/// when it has no name), else the first name found under it, among its
/// tiled then its floating nodes.
pub open spec fn focused_name(n: SwayNode) -> Option<Seq<char>>
    decreases n, 1nat,
{
    if n.focused {
        match n.name {
            Some(s) => Some(s@),
            None => None,
        }
    } else {
        match focused_in(n.nodes@) {
            Some(x) => Some(x),
            None => focused_in(n.floating_nodes@),
        }
    }
}

/// The first name that `focused_name` finds among a list of nodes.
pub open spec fn focused_in(s: Seq<SwayNode>) -> Option<Seq<char>>
    decreases s, 0nat,
{
    if s.len() == 0 {
        None
    } else {
        match focused_in(s.drop_last()) {
            Some(x) => Some(x),
            None => focused_name(s.last()),
        }
    }
}

fn focused_among(s: &Vec<SwayNode>) -> (r: Option<String>)
    ensures
        match r {
            Some(x) => focused_in(s@) == Some(x@),
            None => focused_in(s@) is None,
        },
    decreases s, 0nat,
{
    let mut i: usize = 0;
    assert(s@.take(0) =~= Seq::<SwayNode>::empty());
    while i < s.len()
        invariant
            i <= s@.len(),
            focused_in(s@.take(i as int)) is None,
        decreases s@.len() - i,
    {
        assert(s@.take(i + 1).drop_last() =~= s@.take(i as int));
        assert(s@.take(i + 1).last() == s@[i as int]);
        assert(decreases_to!(s => s@));
        assert(decreases_to!(s@ => s@[i as int]));
        match find_focused_node(&s[i]) {
            Some(x) => {
                proof {
                    lemma_focused_in_prefix(s@, i as int + 1);
                }
                return Some(x);
            },
            None => {},
        }
        i += 1;
    }
    assert(s@.take(i as int) =~= s@);
    None
}

proof fn lemma_focused_in_prefix(s: Seq<SwayNode>, k: int)
    requires
        0 < k <= s.len(),
        focused_in(s.take(k)) is Some,
    ensures
        focused_in(s) == focused_in(s.take(k)),
    decreases s.len() - k,
{
    if k < s.len() {
        assert(s.take(k + 1).drop_last() =~= s.take(k));
        lemma_focused_in_prefix(s, k + 1);
    } else {
        assert(s.take(k) =~= s);
    }
}

/// The name of the focused node of Sway's tree (see `focused_name`).
pub fn find_focused_node(node: &SwayNode) -> (r: Option<String>)
    ensures
        match r {
            Some(x) => focused_name(*node) == Some(x@),
            None => focused_name(*node) is None,
        },
    decreases node, 1nat,
{
    if node.focused {
        return crate::text::clone_opt_string(&node.name);
    }
    assert(decreases_to!(node => node.nodes));
    match focused_among(&node.nodes) {
        Some(x) => Some(x),
        None => {
            assert(decreases_to!(node => node.floating_nodes));
            focused_among(&node.floating_nodes)
        },
    }
}

/// A Sway workspace.
#[derive(Debug)]
pub struct SwayWorkspace {
    pub id: i64,
    pub name: String,
    pub focused: bool,
}

fn first_focused_index(ws: &Vec<SwayWorkspace>) -> (r: Option<usize>)
    ensures
        match r {
            Some(i) => i < ws@.len() && ws@[i as int].focused && forall|j: int| 0 <= j < i ==> !ws@[j].focused,
            None => forall|j: int| 0 <= j < ws@.len() ==> !ws@[j].focused,
        },
{
    let mut i: usize = 0;
    while i < ws.len()
        invariant
            i <= ws@.len(),
            forall|j: int| 0 <= j < i ==> !ws@[j].focused,
        decreases ws@.len() - i,
    {
        if ws[i].focused {
            return Some(i);
        }
        i += 1;
    }
    None
}

/// The desktop as Sway reports it: the workspaces' names, the first one
/// with the id of the first focused workspace as the current one (the
/// former current one when none is focused), and the name of the focused
/// node (empty without one) as the active window's title.
pub fn sway_desktop_state(workspaces: &Vec<SwayWorkspace>, tree: &SwayNode, previous_current: usize) -> (r: DesktopState)
    ensures
        r.workspaces.names@.len() == workspaces@.len(),
        forall|i: int| 0 <= i < workspaces@.len() ==> #[trigger] r.workspaces.names@[i] == workspaces@[i].name,
        match first_focused_index_spec(workspaces@) {
            Some(f) => r.workspaces.current < workspaces@.len() && workspaces@[r.workspaces.current as int].id
                == workspaces@[f].id && forall|j: int| 0 <= j < r.workspaces.current ==> workspaces@[j].id
                != workspaces@[f].id,
            None => r.workspaces.current == previous_current,
        },
        r.active_window_title@ == match focused_name(*tree) {
            Some(t) => t,
            None => Seq::empty(),
        },
{
    let mut names: Vec<String> = Vec::new();
    let mut i: usize = 0;
    while i < workspaces.len()
        invariant
            i <= workspaces@.len(),
            names@.len() == i,
            forall|j: int| 0 <= j < i ==> #[trigger] names@[j] == workspaces@[j].name,
        decreases workspaces@.len() - i,
    {
        names.push(workspaces[i].name.clone());
        i += 1;
    }
    let current = match first_focused_index(workspaces) {
        Some(f) => {
            let id = workspaces[f].id;
            let mut k: usize = 0;
            while k < workspaces.len() && workspaces[k].id != id
                invariant
                    k <= f < workspaces@.len(),
                    workspaces@[f as int].id == id,
                    forall|j: int| 0 <= j < k ==> workspaces@[j].id != id,
                decreases workspaces@.len() - k,
            {
                k += 1;
            }
            k
        },
        None => previous_current,
    };
    let title = match find_focused_node(tree) {
        Some(t) => t,
        None => String::new(),
    };
    DesktopState { workspaces: Workspaces { current, names }, active_window_title: title }
}

/// The first focused workspace, by its index.
pub open spec fn first_focused_index_spec(ws: Seq<SwayWorkspace>) -> Option<int> {
    if exists|i: int| 0 <= i < ws.len() && ws[i].focused {
        Some(choose|i: int| 0 <= i < ws.len() && ws[i].focused && forall|j: int| 0 <= j < i ==> !ws[j].focused)
    } else {
        None
    }
}

/// The Sway command that switches to a workspace by its index from zero
/// (Sway numbers them from one).
pub fn sway_workspace_command(workspace: u32) -> (r: String)
    requires
        workspace < u32::MAX,
    ensures
        r@ == "workspace number "@ + decimal(workspace as nat + 1),
{
    let mut c = owned("workspace number ");
    let n = crate::decimal::u32_to_string(workspace + 1);
    push_str(&mut c, n.as_str());
    c
}

} // verus!
