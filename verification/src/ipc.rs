//! Talking to a running bar: commands, responses, and the variables the
//! bar reports.

use vstd::prelude::*;
use crate::state::{
    apply_entries, run_vars, stored_values, value_or_empty, var_update_applied, State, Update, UpdateEntry, VarSnapshotUpdate,
    VarUpdate,
};
use crate::text::{find_char, owned, push_str, str_eq, str_less, str_lt};

verus! {

/// A request to a running bar.
#[derive(Debug)]
pub enum Command {
    /// Runs the commands again now (those of one name, or all).
    Poke { name: Option<String> },
    SetVar { name: String, value: String },
    GetVar { name: String },
    ListVars {},
}

/// What a request gives back.
#[derive(Debug)]
pub enum ResponseData {
    Value(String),
    /// All variables, in the order of their names.
    Vars(Vec<(String, String)>),
}

/// A request, as sent.
#[derive(Debug)]
pub struct Request {
    pub command: Command,
}

/// The answer to a request.
#[derive(Debug)]
pub struct Response {
    pub data: Option<ResponseData>,
    pub error: Option<String>,
}

impl Default for Response {
    fn default() -> (r: Self)
        ensures
            r.data is None,
            r.error is None,
    {
        Response { data: None, error: None }
    }
}

/// `base` with `rel` appended as `PathBuf::push` appends a relative path:
/// a `/` comes between them unless `base` is empty or already ends with one.
pub open spec fn path_join(base: Seq<char>, rel: Seq<char>) -> Seq<char> {
    if base.len() == 0 || base.last() == '/' {
        base + rel
    } else {
        base + seq!['/'] + rel
    }
}

/// `base` with `rel` appended (see `path_join`).
pub fn join_path(base: &str, rel: &str) -> (r: String)
    ensures
        r@ == path_join(base@, rel@),
{
    let v = crate::text::chars_of(base);
    let mut r = owned(base);
    if v.len() > 0 && v[v.len() - 1] != '/' {
        crate::text::push_char(&mut r, '/');
    }
    push_str(&mut r, rel);
    r
}

/// The name of the socket of a bar instance, `oatbar/<instance>.sock`.
pub open spec fn socket_name(instance_name: Seq<char>) -> Seq<char> {
    seq!['o', 'a', 't', 'b', 'a', 'r', '/'] + instance_name + seq!['.', 's', 'o', 'c', 'k']
}

/// Where the socket of a bar instance is: `oatbar/<instance>.sock` in the
/// runtime directory given (the user's runtime, state or temporary directory).
pub fn socket_path(base_dir: &str, instance_name: &str) -> (r: String)
    ensures
        r@ == path_join(base_dir@, socket_name(instance_name@)),
{
    let dir = "oatbar/";
    let ext = ".sock";
    proof {
        reveal_strlit("oatbar/");
        reveal_strlit(".sock");
    }
    let mut rel = owned(dir);
    push_str(&mut rel, instance_name);
    push_str(&mut rel, ext);
    join_path(base_dir, rel.as_str())
}

/// A client of a bar instance, by the path of its socket.
#[derive(Debug)]
pub struct Client {
    pub socket_path: String,
}

impl Client {
    /// The client of a bar instance whose socket is in `base_dir`.
    pub fn new(base_dir: &str, instance_name: &str) -> (r: Self)
        ensures
            r.socket_path@ == path_join(base_dir@, socket_name(instance_name@)),
    {
        Client { socket_path: socket_path(base_dir, instance_name) }
    }
}

/// `command:name` split at its first colon; a name without one belongs to no command.
pub open spec fn spec_split_var_name(name: Seq<char>) -> (Option<Seq<char>>, Seq<char>) {
    match find_char(name, ':') {
        Some(i) => (Some(name.take(i)), name.skip(i + 1)),
        None => (None, name),
    }
}

/// `command:name` split at its first colon.
pub fn split_var_name(name: &str) -> (r: (Option<String>, String))
    ensures
        r.0 matches Some(c) ==> spec_split_var_name(name@).0 == Some(c@),
        r.0 is None ==> spec_split_var_name(name@).0 is None,
        r.1@ == spec_split_var_name(name@).1,
{
    let v = crate::text::chars_of(name);
    proof {
        assert(v@.subrange(0, v@.len() as int) == v@);
        crate::text::lemma_find_char(v@, ':');
    }
    match crate::text::find_char_in(&v, 0, v.len(), ':') {
        Some(i) => {
            let c = crate::text::string_of(&v, 0, i);
            let n = crate::text::string_of(&v, i + 1, v.len());
            assert(v@.subrange(0, i as int) == v@.take(i as int));
            assert(v@.subrange(i + 1, v@.len() as int) == v@.skip(i + 1));
            (Some(c), n)
        },
        None => (None, owned(name)),
    }
}

/// The update that sets a variable given as `command:name` or `name`.
pub fn set_var_update(name: &str, value: String) -> (r: Update)
    ensures
        r matches Update::VarUpdate(u) && u.error is None && u.entries@.len() == 1
            && u.entries@[0].name is None && u.entries@[0].instance is None
            && u.entries@[0].var@ == spec_split_var_name(name@).1
            && u.entries@[0].value == value
            && match spec_split_var_name(name@).0 {
                Some(c) => u.command_name matches Some(x) && x@ == c,
                None => u.command_name is None,
            },
{
    let (command_name, var) = split_var_name(name);
    let mut entries: Vec<UpdateEntry> = Vec::new();
    entries.push(UpdateEntry { name: None, instance: None, var, value });
    Update::VarUpdate(VarUpdate { command_name, entries, error: None })
}

/// Name/value pairs whose names are in order, each once.
pub open spec fn sorted_pairs(s: Seq<(String, String)>) -> bool {
    forall|i: int, j: int| 0 <= i < j < s.len() ==> str_lt(#[trigger] s[i].0@, #[trigger] s[j].0@)
}

/// The map of name/value pairs.
pub open spec fn pairs_map(s: Seq<(String, String)>) -> Map<Seq<char>, Seq<char>> {
    Map::new(
        |k: Seq<char>| exists|i: int| 0 <= i < s.len() && s[i].0@ == k,
        |k: Seq<char>| s[choose|i: int| 0 <= i < s.len() && s[i].0@ == k].1@,
    )
}

/// The variables the bar reports, in the order of their names.
#[derive(Debug)]
pub struct VarStore {
    entries: Vec<(String, String)>,
}

impl View for VarStore {
    type V = Map<Seq<char>, Seq<char>>;

    open spec fn view(&self) -> Map<Seq<char>, Seq<char>> {
        pairs_map(self.pairs())
    }
}

impl VarStore {
    #[verifier::type_invariant]
    closed spec fn in_order(self) -> bool {
        sorted_pairs(self.entries@)
    }

    /// The pairs, in the order of their names.
    pub closed spec fn pairs(&self) -> Seq<(String, String)> {
        self.entries@
    }

    /// No variables.
    pub fn new() -> (r: Self)
        ensures
            r@ == Map::<Seq<char>, Seq<char>>::empty(),
    {
        let r = VarStore { entries: Vec::new() };
        assert(r@ =~= Map::<Seq<char>, Seq<char>>::empty());
        r
    }

    /// The value of a variable.
    pub fn get(&self, name: &str) -> (r: Option<&String>)
        ensures
            match r {
                Some(v) => self@.contains_key(name@) && self@[name@] == v@,
                None => !self@.contains_key(name@),
            },
    {
        proof {
            use_type_invariant(self);
        }
        let mut i: usize = 0;
        while i < self.entries.len()
            invariant
                i <= self.entries@.len(),
                sorted_pairs(self.entries@),
                forall|j: int| 0 <= j < i ==> self.entries@[j].0@ != name@,
            decreases self.entries@.len() - i,
        {
            if str_eq(self.entries[i].0.as_str(), name) {
                proof {
                    let e = self.entries@;
                    assert(e[i as int].0@ == name@);
                    let k = choose|k: int| 0 <= k < e.len() && e[k].0@ == name@;
                    if k != i {
                        if k < i {
                            crate::text::lemma_str_lt_asymmetric(e[k].0@, e[i as int].0@);
                        } else {
                            crate::text::lemma_str_lt_asymmetric(e[i as int].0@, e[k].0@);
                        }
                    }
                }
                return Some(&self.entries[i].1);
            }
            i += 1;
        }
        None
    }

    /// Sets a variable.
    pub fn insert(&mut self, name: String, value: String)
        ensures
            final(self)@ == old(self)@.insert(name@, value@),
    {
        proof {
            use_type_invariant(&*self);
        }
        let ghost o = self.entries@;
        let mut k: usize = 0;
        while k < self.entries.len() && str_less(self.entries[k].0.as_str(), name.as_str())
            invariant
                k <= o.len(),
                self.entries@ == o,
                sorted_pairs(o),
                forall|i: int| 0 <= i < k ==> str_lt(#[trigger] o[i].0@, name@),
            decreases o.len() - k,
        {
            k += 1;
        }
        let mut entries: Vec<(String, String)> = Vec::new();
        std::mem::swap(&mut entries, &mut self.entries);
        let ghost n = name@;
        let ghost v = value@;
        if k < entries.len() && str_eq(entries[k].0.as_str(), name.as_str()) {
            entries.set(k, (name, value));
            proof {
                let e = entries@;
                assert(sorted_pairs(e)) by {
                    assert forall|i: int, j: int| 0 <= i < j < e.len() implies str_lt(#[trigger] e[i].0@, #[trigger] e[j].0@) by {
                        assert(o[i].0@ == e[i].0@ && o[j].0@ == e[j].0@);
                    }
                }
                lemma_pairs_map_update(o, k as int, e);
            }
        } else {
            proof {
                if k < o.len() {
                    crate::text::lemma_str_lt_total(o[k as int].0@, n);
                }
            }
            entries.insert(k, (name, value));
            proof {
                let e = entries@;
                assert(e == o.insert(k as int, e[k as int]));
                assert forall|i: int, j: int| 0 <= i < j < e.len() implies str_lt(#[trigger] e[i].0@, #[trigger] e[j].0@) by {
                    if j < k {
                        assert(e[i] == o[i] && e[j] == o[j]);
                    } else if j == k {
                        assert(e[i] == o[i]);
                    } else if i == k {
                        assert(e[j] == o[j - 1]);
                        if j - 1 > k {
                            crate::text::lemma_str_lt_transitive(n, o[k as int].0@, o[j - 1].0@);
                        }
                    } else if i < k {
                        assert(e[i] == o[i] && e[j] == o[j - 1]);
                        crate::text::lemma_str_lt_transitive(o[i].0@, n, o[k as int].0@);
                        if j - 1 > k {
                            crate::text::lemma_str_lt_transitive(o[i].0@, o[k as int].0@, o[j - 1].0@);
                        }
                    } else {
                        assert(e[i] == o[i - 1] && e[j] == o[j - 1]);
                    }
                }
                lemma_pairs_map_insert(o, k as int, e);
            }
        }
        self.entries = entries;
    }

    /// All variables, in the order of their names.
    pub fn list(&self) -> (r: Vec<(String, String)>)
        ensures
            sorted_pairs(r@),
            pairs_map(r@) == self@,
    {
        proof {
            use_type_invariant(self);
        }
        let mut r: Vec<(String, String)> = Vec::new();
        let mut i: usize = 0;
        while i < self.entries.len()
            invariant
                i <= self.entries@.len(),
                r@ == self.entries@.take(i as int),
            decreases self.entries@.len() - i,
        {
            r.push((self.entries[i].0.clone(), self.entries[i].1.clone()));
            assert(self.entries@.take(i + 1) == self.entries@.take(i as int).push(self.entries@[i as int]));
            i += 1;
        }
        assert(self.entries@.take(i as int) == self.entries@);
        r
    }
}

proof fn lemma_sorted_unique_names(s: Seq<(String, String)>, i: int, j: int)
    requires
        sorted_pairs(s),
        0 <= i < s.len(),
        0 <= j < s.len(),
        s[i].0@ == s[j].0@,
    ensures
        i == j,
{
    if i < j {
        crate::text::lemma_str_lt_asymmetric(s[i].0@, s[j].0@);
    } else if j < i {
        crate::text::lemma_str_lt_asymmetric(s[j].0@, s[i].0@);
    }
}

proof fn lemma_pairs_map_update(o: Seq<(String, String)>, k: int, e: Seq<(String, String)>)
    requires
        sorted_pairs(o),
        sorted_pairs(e),
        0 <= k < o.len(),
        e.len() == o.len(),
        e[k].0@ == o[k].0@,
        forall|i: int| 0 <= i < o.len() && i != k ==> e[i] == o[i],
    ensures
        pairs_map(e) == pairs_map(o).insert(e[k].0@, e[k].1@),
{
    let n = e[k].0@;
    assert forall|x: Seq<char>| pairs_map(e).contains_key(x) == pairs_map(o).insert(n, e[k].1@).contains_key(x) by {
        if pairs_map(e).contains_key(x) {
            let i = choose|i: int| 0 <= i < e.len() && e[i].0@ == x;
            if i != k {
                assert(o[i].0@ == x);
            }
        }
        if pairs_map(o).contains_key(x) {
            let i = choose|i: int| 0 <= i < o.len() && o[i].0@ == x;
            if i != k {
                assert(e[i].0@ == x);
            } else {
                assert(e[k].0@ == x);
            }
        }
        if x == n {
            assert(e[k].0@ == x);
        }
    }
    assert forall|x: Seq<char>| #[trigger] pairs_map(e).contains_key(x) implies pairs_map(e)[x] == pairs_map(o).insert(n, e[k].1@)[x] by {
        let i = choose|i: int| 0 <= i < e.len() && e[i].0@ == x;
        if x == n {
            lemma_sorted_unique_names(e, i, k);
        } else {
            let j = choose|j: int| 0 <= j < o.len() && o[j].0@ == x;
            assert(i != k);
            assert(o[i].0@ == x);
            lemma_sorted_unique_names(o, i, j);
        }
    }
    assert(pairs_map(e) =~= pairs_map(o).insert(n, e[k].1@));
}

proof fn lemma_pairs_map_insert(o: Seq<(String, String)>, k: int, e: Seq<(String, String)>)
    requires
        sorted_pairs(o),
        sorted_pairs(e),
        0 <= k <= o.len(),
        e == o.insert(k, e[k]),
    ensures
        pairs_map(e) == pairs_map(o).insert(e[k].0@, e[k].1@),
{
    let n = e[k].0@;
    assert forall|x: Seq<char>| pairs_map(e).contains_key(x) == pairs_map(o).insert(n, e[k].1@).contains_key(x) by {
        if pairs_map(e).contains_key(x) {
            let i = choose|i: int| 0 <= i < e.len() && e[i].0@ == x;
            if i < k {
                assert(o[i].0@ == x);
            } else if i > k {
                assert(o[i - 1].0@ == x);
            }
        }
        if pairs_map(o).contains_key(x) {
            let i = choose|i: int| 0 <= i < o.len() && o[i].0@ == x;
            if i < k {
                assert(e[i].0@ == x);
            } else {
                assert(e[i + 1].0@ == x);
            }
        }
        if x == n {
            assert(e[k].0@ == x);
        }
    }
    assert forall|x: Seq<char>| #[trigger] pairs_map(e).contains_key(x) implies pairs_map(e)[x] == pairs_map(o).insert(n, e[k].1@)[x] by {
        let i = choose|i: int| 0 <= i < e.len() && e[i].0@ == x;
        if x == n {
            lemma_sorted_unique_names(e, i, k);
        } else {
            let j = choose|j: int| 0 <= j < o.len() && o[j].0@ == x;
            if j < k {
                assert(e[j] == o[j]);
                lemma_sorted_unique_names(e, i, j);
            } else {
                assert(e[j + 1] == o[j]);
                lemma_sorted_unique_names(e, i, j + 1);
            }
        }
    }
    assert(pairs_map(e) =~= pairs_map(o).insert(n, e[k].1@));
}

} // verus!

verus! {

/// What a bar does for a request besides answering it.
#[derive(Debug)]
pub enum ServerAction {
    /// Runs the commands of a name, or all, again now.
    Poke(Option<String>),
    /// Applies the update to the state.
    Send(Update),
}

/// The answer with a variable's value, empty when it is not set.
pub fn handle_get_var(vars: &VarStore, name: &str) -> (r: Response)
    ensures
        r.error is None,
        r.data matches Some(ResponseData::Value(v)) && v@ == crate::state::value_or_empty(vars@, name@),
{
    let v = match vars.get(name) {
        Some(v) => v.clone(),
        None => String::new(),
    };
    Response { data: Some(ResponseData::Value(v)), error: None }
}

/// The answer with all variables, in the order of their names.
pub fn handle_list_vars(vars: &VarStore) -> (r: Response)
    ensures
        r.error is None,
        r.data matches Some(ResponseData::Vars(l)) && sorted_pairs(l@) && pairs_map(l@) == vars@,
{
    Response { data: Some(ResponseData::Vars(vars.list())), error: None }
}

/// The answer to a request, and what the bar must do for it: a poke runs
/// the commands again, a `SetVar` sends the update that sets the variable
/// (see `set_var_update`), a `GetVar` answers the value, `ListVars` all of them.
pub fn handle_command(vars: &VarStore, command: Command) -> (r: (Response, Option<ServerAction>))
    ensures
        match command {
            Command::Poke { name } => r.0.data is None && r.0.error is None
                && r.1 == Some(ServerAction::Poke(name)),
            Command::SetVar { name, value } => r.0.data is None && r.0.error is None
                && (r.1 matches Some(ServerAction::Send(u)) && u matches Update::VarUpdate(x)
                    && x.error is None && x.entries@.len() == 1
                    && x.entries@[0].name is None && x.entries@[0].instance is None
                    && x.entries@[0].var@ == spec_split_var_name(name@).1 && x.entries@[0].value == value
                    && match spec_split_var_name(name@).0 {
                        Some(c) => x.command_name matches Some(y) && y@ == c,
                        None => x.command_name is None,
                    }),
            Command::GetVar { name } => r.1 is None && r.0.error is None
                && (r.0.data matches Some(ResponseData::Value(v)) && v@ == crate::state::value_or_empty(vars@, name@)),
            Command::ListVars {} => r.1 is None && r.0.error is None
                && (r.0.data matches Some(ResponseData::Vars(l)) && pairs_map(l@) == vars@),
        },
{
    match command {
        Command::Poke { name } => (Response { data: None, error: None }, Some(ServerAction::Poke(name))),
        Command::SetVar { name, value } => {
            let u = set_var_update(name.as_str(), value);
            (Response { data: None, error: None }, Some(ServerAction::Send(u)))
        },
        Command::GetVar { name } => (handle_get_var(vars, name.as_str()), None),
        Command::ListVars {} => (handle_list_vars(vars), None),
    }
}

/// Records the changed variables of a snapshot.
pub fn apply_snapshot(vars: &mut VarStore, update: &crate::state::VarSnapshotUpdate)
    ensures
        final(vars)@ == old(vars)@.union_prefer_right(update.vars@),
{
    let pairs = update.vars.to_pairs();
    let ghost start = vars@;
    let mut i: usize = 0;
    assert(start.union_prefer_right(crate::vars::map_of(pairs@.take(0))) =~= start);
    while i < pairs.len()
        invariant
            i <= pairs@.len(),
            vars@ == start.union_prefer_right(crate::vars::map_of(pairs@.take(i as int))),
        decreases pairs@.len() - i,
    {
        let ghost t = pairs@.take(i + 1);
        assert(t.drop_last() == pairs@.take(i as int));
        assert(t.last() == pairs@[i as int]);
        vars.insert(pairs[i].0.clone(), pairs[i].1.clone());
        assert(vars@ =~= start.union_prefer_right(crate::vars::map_of(t)));
        i += 1;
    }
    assert(pairs@.take(i as int) == pairs@);
}

} // verus!

verus! {

/// Setting a variable through the socket sets the variable of exactly the
/// name given: the command part before the first colon and the rest come
/// together again as the state names the variable.
pub proof fn lemma_set_var_name_round_trip(name: Seq<char>, var: String, command_name: Option<String>, value: String)
    requires
        var@ == spec_split_var_name(name).1,
        match spec_split_var_name(name).0 {
            Some(c) => command_name matches Some(x) && x@ == c,
            None => command_name is None,
        },
    ensures
        crate::state::entry_var_name(command_name, UpdateEntry { name: None, instance: None, var, value }) == name,
{
    crate::text::lemma_find_char(name, ':');
    match find_char(name, ':') {
        Some(i) => {
            assert(name =~= name.take(i) + seq![':'] + name.skip(i + 1));
        },
        None => {},
    }
}

} // verus!

verus! {

/// Reading any variable from `store` gives what reading it from `vars`
/// gives (an absent variable reads as empty).
pub open spec fn agrees(store: Map<Seq<char>, Seq<char>>, vars: Map<Seq<char>, Seq<char>>) -> bool {
    forall|k: Seq<char>| #[trigger] value_or_empty(store, k) == value_or_empty(vars, k)
}

proof fn lemma_entries_keep_agreement(
    store: Map<Seq<char>, Seq<char>>,
    vars: Map<Seq<char>, Seq<char>>,
    changed: Map<Seq<char>, Seq<char>>,
    command_name: Option<String>,
    es: Seq<UpdateEntry>,
)
    requires
        agrees(store.union_prefer_right(changed), vars),
    ensures
        agrees(
            store.union_prefer_right(apply_entries(vars, changed, command_name, es).1),
            apply_entries(vars, changed, command_name, es).0,
        ),
    decreases es.len(),
{
    if es.len() > 0 {
        lemma_entries_keep_agreement(store, vars, changed, command_name, es.drop_last());
        let (v, c) = apply_entries(vars, changed, command_name, es.drop_last());
        let e = es.last();
        let n = crate::state::entry_var_name(command_name, e);
        let (v2, c2) = apply_entries(vars, changed, command_name, es);
        assert forall|k: Seq<char>| #[trigger] value_or_empty(store.union_prefer_right(c2), k)
            == value_or_empty(v2, k) by {
            assert(value_or_empty(store.union_prefer_right(c), k) == value_or_empty(v, k));
        }
    }
}

proof fn lemma_vars_keep_agreement(
    store: Map<Seq<char>, Seq<char>>,
    defs: Map<Seq<char>, crate::config::Var<crate::parse::Placeholder>>,
    order: Seq<Seq<char>>,
    start: (Map<Seq<char>, Seq<char>>, Map<Seq<char>, Seq<char>>, Map<Seq<char>, Seq<char>>),
)
    requires
        agrees(store.union_prefer_right(start.1), start.0),
    ensures
        agrees(store.union_prefer_right(run_vars(defs, order, start).1), run_vars(defs, order, start).0),
    decreases order.len(),
{
    if order.len() > 0 {
        lemma_vars_keep_agreement(store, defs, order.drop_last(), start);
        let (v, c, p) = run_vars(defs, order.drop_last(), start);
        let (v2, c2, p2) = run_vars(defs, order, start);
        assert forall|k: Seq<char>| #[trigger] value_or_empty(store.union_prefer_right(c2), k)
            == value_or_empty(v2, k) by {
            assert(value_or_empty(store.union_prefer_right(c), k) == value_or_empty(v, k));
        }
    }
}

/// The socket's store of variables follows the state: when reading any
/// variable from the store gives the state's value before an update, it
/// still does once the update's changed variables (if any) are applied to
/// the store. So a variable read through the socket after an update reads
/// as the state holds it.
pub proof fn lemma_store_follows_state(
    store: Map<Seq<char>, Seq<char>>,
    o: State,
    u: VarUpdate,
    n: State,
    r: Option<VarSnapshotUpdate>,
)
    requires
        var_update_applied(o, u, n, r),
        agrees(store, o.vars@),
    ensures
        agrees(
            match r {
                Some(s) => store.union_prefer_right(s.vars@),
                None => store,
            },
            n.vars@,
        ),
{
    assert(store.union_prefer_right(Map::empty()) =~= store);
    lemma_entries_keep_agreement(store, o.vars@, Map::empty(), u.command_name, u.entries@);
    let (v1, c1) = apply_entries(o.vars@, Map::empty(), u.command_name, u.entries@);
    lemma_vars_keep_agreement(
        store,
        o.config.vars@,
        crate::text::strings_view(o.config.var_order@),
        (v1, c1, stored_values(o.config.vars@)),
    );
    let (v2, c2, p2) = run_vars(
        o.config.vars@,
        crate::text::strings_view(o.config.var_order@),
        (v1, c1, stored_values(o.config.vars@)),
    );
    if c2 == Map::<Seq<char>, Seq<char>>::empty() {
        assert(store.union_prefer_right(c2) =~= store);
    }
}

} // verus!

verus! {

proof fn lemma_vars_leave_other_names(
    defs: Map<Seq<char>, crate::config::Var<crate::parse::Placeholder>>,
    order: Seq<Seq<char>>,
    start: (Map<Seq<char>, Seq<char>>, Map<Seq<char>, Seq<char>>, Map<Seq<char>, Seq<char>>),
    name: Seq<char>,
)
    requires
        forall|i: int| 0 <= i < order.len() ==> defs.contains_key(#[trigger] order[i]),
        forall|k: Seq<char>| #[trigger] defs.contains_key(k) ==> defs[k].name@ != name,
    ensures
        value_or_empty(run_vars(defs, order, start).0, name) == value_or_empty(start.0, name),
    decreases order.len(),
{
    if order.len() > 0 {
        assert(defs.contains_key(order[order.len() - 1]));
        lemma_vars_leave_other_names(defs, order.drop_last(), start, name);
    }
}

/// A variable set through the socket reads back as the value set, unless a
/// configured variable of that name is computed after it: the update that
/// `set_var_update` makes for `name`, once applied, leaves `name` holding
/// the value when no configured variable bears that name.
pub proof fn lemma_set_then_get(o: State, name: Seq<char>, u: VarUpdate, n: State, r: Option<VarSnapshotUpdate>)
    requires
        o.wf(),
        u.entries@.len() == 1,
        u.entries@[0].name is None,
        u.entries@[0].instance is None,
        u.entries@[0].var@ == spec_split_var_name(name).1,
        match spec_split_var_name(name).0 {
            Some(c) => u.command_name matches Some(x) && x@ == c,
            None => u.command_name is None,
        },
        var_update_applied(o, u, n, r),
        forall|k: Seq<char>| #[trigger] o.config.vars@.contains_key(k) ==> o.config.vars@[k].name@ != name,
    ensures
        value_or_empty(n.vars@, name) == u.entries@[0].value@,
{
    let e = u.entries@[0];
    lemma_set_var_name_round_trip(name, e.var, u.command_name, e.value);
    assert(e == UpdateEntry { name: None, instance: None, var: e.var, value: e.value });
    assert(u.entries@.drop_last() =~= Seq::<UpdateEntry>::empty());
    let (v1, c1) = apply_entries(o.vars@, Map::empty(), u.command_name, u.entries@);
    assert(v1.contains_key(name) && v1[name] == e.value@);
    let order = crate::text::strings_view(o.config.var_order@);
    assert forall|i: int| 0 <= i < order.len() implies o.config.vars@.contains_key(#[trigger] order[i]) by {
        assert(o.config.vars@.contains_key(o.config.var_order@[i]@));
    }
    lemma_vars_leave_other_names(o.config.vars@, order, (v1, c1, stored_values(o.config.vars@)), name);
}

} // verus!
