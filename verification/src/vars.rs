//! A map from variable names to values, kept as a list of distinct names.

use vstd::prelude::*;
use crate::text::str_eq;

verus! {

/// The map that a list of name/value pairs stands for; a later pair wins.
pub open spec fn map_of(s: Seq<(String, String)>) -> Map<Seq<char>, Seq<char>>
    decreases s.len(),
{
    if s.len() == 0 {
        Map::empty()
    } else {
        map_of(s.drop_last()).insert(s.last().0@, s.last().1@)
    }
}

/// No name occurs twice.
pub open spec fn keys_unique(s: Seq<(String, String)>) -> bool {
    forall|i: int, j: int| 0 <= i < j < s.len() ==> s[i].0@ != s[j].0@
}

/// With distinct names, the map holds exactly the listed names, each with its
/// listed value.
pub proof fn lemma_map_of(s: Seq<(String, String)>)
    requires
        keys_unique(s),
    ensures
        forall|k: Seq<char>| #[trigger] map_of(s).contains_key(k) <==> exists|i: int| 0 <= i < s.len() && s[i].0@ == k,
        forall|i: int| 0 <= i < s.len() ==> map_of(s)[#[trigger] s[i].0@] == s[i].1@,
    decreases s.len(),
{
    if s.len() > 0 {
        let t = s.drop_last();
        assert(keys_unique(t));
        lemma_map_of(t);
        assert forall|k: Seq<char>| #[trigger] map_of(s).contains_key(k) <==> exists|i: int| 0 <= i < s.len() && s[i].0@ == k by {
            if map_of(s).contains_key(k) {
                if k == s.last().0@ {
                    assert(s[s.len() - 1].0@ == k);
                } else {
                    assert(map_of(t).contains_key(k));
                    let i = choose|i: int| 0 <= i < t.len() && t[i].0@ == k;
                    assert(t[i] == s[i]);
                    assert(s[i].0@ == k);
                }
            }
            if exists|i: int| 0 <= i < s.len() && s[i].0@ == k {
                let i = choose|i: int| 0 <= i < s.len() && s[i].0@ == k;
                if i < s.len() - 1 {
                    assert(t[i] == s[i]);
                    assert(t[i].0@ == k);
                    assert(map_of(t).contains_key(k));
                }
            }
        }
        assert forall|i: int| 0 <= i < s.len() implies map_of(s)[#[trigger] s[i].0@] == s[i].1@ by {
            if i < s.len() - 1 {
                assert(t[i] == s[i]);
                assert(s[i].0@ != s.last().0@);
            }
        }
    }
}

/// With distinct names, the map has as many entries as the list has pairs.
pub proof fn lemma_map_of_len(s: Seq<(String, String)>)
    requires
        keys_unique(s),
    ensures
        map_of(s).dom().finite(),
        map_of(s).len() == s.len(),
    decreases s.len(),
{
    if s.len() == 0 {
        assert(map_of(s).dom() =~= Set::<Seq<char>>::empty());
    } else {
        let t = s.drop_last();
        assert(keys_unique(t));
        lemma_map_of_len(t);
        lemma_map_of(t);
        assert(!map_of(t).contains_key(s.last().0@)) by {
            if map_of(t).contains_key(s.last().0@) {
                let i = choose|i: int| 0 <= i < t.len() && t[i].0@ == s.last().0@;
                assert(s[i] == t[i]);
            }
        }
        assert(map_of(s).dom() =~= map_of(t).dom().insert(s.last().0@));
    }
}

/// Variables by name, each name at most once.
#[derive(Debug)]
pub struct VarMap {
    entries: Vec<(String, String)>,
}

impl View for VarMap {
    type V = Map<Seq<char>, Seq<char>>;

    open spec fn view(&self) -> Map<Seq<char>, Seq<char>> {
        map_of(self.pairs())
    }
}

impl VarMap {
    #[verifier::type_invariant]
    closed spec fn names_distinct(self) -> bool {
        keys_unique(self.entries@)
    }

    /// The pairs, in the order the names were first set.
    pub closed spec fn pairs(&self) -> Seq<(String, String)> {
        self.entries@
    }

    /// An empty map.
    pub fn new() -> (r: Self)
        ensures
            r@ == Map::<Seq<char>, Seq<char>>::empty(),
            r.pairs().len() == 0,
    {
        VarMap { entries: Vec::new() }
    }

    /// Number of variables.
    pub fn len(&self) -> (r: usize)
        ensures
            r == self@.len(),
            r == self.pairs().len(),
    {
        proof {
            use_type_invariant(self);
            lemma_map_of_len(self.entries@);
        }
        self.entries.len()
    }

    /// The `i`-th pair.
    pub fn pair_at(&self, i: usize) -> (r: (&String, &String))
        requires
            i < self.pairs().len(),
        ensures
            *r.0 == self.pairs()[i as int].0,
            *r.1 == self.pairs()[i as int].1,
    {
        (&self.entries[i].0, &self.entries[i].1)
    }

    fn index_of(&self, key: &str) -> (r: Option<usize>)
        ensures
            match r {
                Some(i) => i < self.entries@.len() && self.entries@[i as int].0@ == key@,
                None => forall|i: int| 0 <= i < self.entries@.len() ==> self.entries@[i].0@ != key@,
            },
    {
        let mut i: usize = 0;
        while i < self.entries.len()
            invariant
                i <= self.entries@.len(),
                forall|j: int| 0 <= j < i ==> self.entries@[j].0@ != key@,
            decreases self.entries@.len() - i,
        {
            if str_eq(self.entries[i].0.as_str(), key) {
                return Some(i);
            }
            i += 1;
        }
        None
    }

    /// The value of a variable.
    pub fn get(&self, key: &str) -> (r: Option<&String>)
        ensures
            match r {
                Some(v) => self@.contains_key(key@) && self@[key@] == v@,
                None => !self@.contains_key(key@),
            },
    {
        proof {
            use_type_invariant(self);
            lemma_map_of(self.entries@);
        }
        match self.index_of(key) {
            Some(i) => Some(&self.entries[i].1),
            None => None,
        }
    }

    /// Sets a variable, giving back its former value.
    pub fn insert(&mut self, key: String, value: String) -> (r: Option<String>)
        ensures
            final(self)@ == old(self)@.insert(key@, value@),
            match r {
                Some(v) => old(self)@.contains_key(key@) && old(self)@[key@] == v@,
                None => !old(self)@.contains_key(key@),
            },
    {
        proof {
            use_type_invariant(&*self);
            lemma_map_of(self.entries@);
        }
        let ghost before = self.entries@;
        match self.index_of(key.as_str()) {
            Some(i) => {
                let old_value = self.entries[i].1.clone();
                let ghost k = self.entries@[i as int].0;
                let mut entries: Vec<(String, String)> = Vec::new();
                std::mem::swap(&mut entries, &mut self.entries);
                let name = entries[i].0.clone();
                entries.set(i, (name, value));
                proof {
                    let after = entries@;
                    assert(keys_unique(after));
                    lemma_map_of(after);
                    assert(map_of(after) =~= map_of(before).insert(key@, value@)) by {
                        assert forall|q: Seq<char>| map_of(after).contains_key(q) <==> map_of(before).insert(key@, value@).contains_key(q) by {
                            if map_of(after).contains_key(q) {
                                let j = choose|j: int| 0 <= j < after.len() && after[j].0@ == q;
                                assert(before[j].0@ == q);
                            }
                            if map_of(before).contains_key(q) {
                                let j = choose|j: int| 0 <= j < before.len() && before[j].0@ == q;
                                assert(after[j].0@ == q);
                            }
                            if q == key@ {
                                assert(after[i as int].0@ == q);
                            }
                        }
                        assert forall|q: Seq<char>| #[trigger] map_of(after).contains_key(q) implies map_of(after)[q] == map_of(before).insert(key@, value@)[q] by {
                            let j = choose|j: int| 0 <= j < after.len() && after[j].0@ == q;
                            if j != i {
                                assert(before[j] == after[j]);
                                assert(map_of(before)[before[j].0@] == before[j].1@);
                            }
                        }
                    }
                }
                self.entries = entries;
                Some(old_value)
            },
            None => {
                let mut entries: Vec<(String, String)> = Vec::new();
                std::mem::swap(&mut entries, &mut self.entries);
                entries.push((key, value));
                assert(entries@.drop_last() == before);
                self.entries = entries;
                None
            },
        }
    }

    /// Removes a variable, giving back its value.
    pub fn remove(&mut self, key: &str) -> (r: Option<String>)
        ensures
            final(self)@ == old(self)@.remove(key@),
            match r {
                Some(v) => old(self)@.contains_key(key@) && old(self)@[key@] == v@,
                None => !old(self)@.contains_key(key@),
            },
    {
        proof {
            use_type_invariant(&*self);
            lemma_map_of(self.entries@);
        }
        let ghost before = self.entries@;
        match self.index_of(key) {
            Some(i) => {
                let mut entries: Vec<(String, String)> = Vec::new();
                std::mem::swap(&mut entries, &mut self.entries);
                let (_, v) = entries.remove(i);
                proof {
                    let after = entries@;
                    assert(after == before.remove(i as int));
                    assert(keys_unique(after));
                    lemma_map_of(after);
                    assert(map_of(after) =~= map_of(before).remove(key@)) by {
                        assert forall|q: Seq<char>| map_of(after).contains_key(q) <==> map_of(before).remove(key@).contains_key(q) by {
                            if map_of(after).contains_key(q) {
                                let j = choose|j: int| 0 <= j < after.len() && after[j].0@ == q;
                                if j < i {
                                    assert(before[j].0@ == q);
                                } else {
                                    assert(before[j + 1].0@ == q);
                                }
                            }
                            if map_of(before).remove(key@).contains_key(q) {
                                let j = choose|j: int| 0 <= j < before.len() && before[j].0@ == q;
                                if j < i {
                                    assert(after[j].0@ == q);
                                } else {
                                    assert(after[j - 1].0@ == q);
                                }
                            }
                        }
                        assert forall|q: Seq<char>| #[trigger] map_of(after).contains_key(q) implies map_of(after)[q] == map_of(before)[q] by {
                            let j = choose|j: int| 0 <= j < after.len() && after[j].0@ == q;
                            if j < i {
                                assert(before[j] == after[j]);
                                assert(map_of(before)[before[j].0@] == before[j].1@);
                            } else {
                                assert(before[j + 1] == after[j]);
                                assert(map_of(before)[before[j + 1].0@] == before[j + 1].1@);
                            }
                        }
                    }
                }
                self.entries = entries;
                Some(v)
            },
            None => None,
        }
    }
}

} // verus!

verus! {

/// The map that a list of name/item pairs stands for; a later pair wins.
pub open spec fn named_map_of<T>(s: Seq<(String, T)>) -> Map<Seq<char>, T>
    decreases s.len(),
{
    if s.len() == 0 {
        Map::empty()
    } else {
        named_map_of(s.drop_last()).insert(s.last().0@, s.last().1)
    }
}

/// No name occurs twice.
pub open spec fn names_unique<T>(s: Seq<(String, T)>) -> bool {
    forall|i: int, j: int| 0 <= i < j < s.len() ==> s[i].0@ != s[j].0@
}

/// With distinct names, the map holds exactly the listed names, each with
/// its listed item.
pub proof fn lemma_named_map_of<T>(s: Seq<(String, T)>)
    requires
        names_unique(s),
    ensures
        forall|k: Seq<char>| #[trigger] named_map_of(s).contains_key(k) <==> exists|i: int| 0 <= i < s.len() && s[i].0@ == k,
        forall|i: int| 0 <= i < s.len() ==> named_map_of(s)[#[trigger] s[i].0@] == s[i].1,
    decreases s.len(),
{
    if s.len() > 0 {
        let t = s.drop_last();
        assert(names_unique(t));
        lemma_named_map_of(t);
        assert forall|k: Seq<char>| #[trigger] named_map_of(s).contains_key(k) <==> exists|i: int| 0 <= i < s.len() && s[i].0@ == k by {
            if named_map_of(s).contains_key(k) {
                if k == s.last().0@ {
                    assert(s[s.len() - 1].0@ == k);
                } else {
                    assert(named_map_of(t).contains_key(k));
                    let i = choose|i: int| 0 <= i < t.len() && t[i].0@ == k;
                    assert(t[i] == s[i]);
                    assert(s[i].0@ == k);
                }
            }
            if exists|i: int| 0 <= i < s.len() && s[i].0@ == k {
                let i = choose|i: int| 0 <= i < s.len() && s[i].0@ == k;
                if i < s.len() - 1 {
                    assert(t[i] == s[i]);
                    assert(t[i].0@ == k);
                    assert(named_map_of(t).contains_key(k));
                }
            }
        }
        assert forall|i: int| 0 <= i < s.len() implies named_map_of(s)[#[trigger] s[i].0@] == s[i].1 by {
            if i < s.len() - 1 {
                assert(t[i] == s[i]);
                assert(s[i].0@ != s.last().0@);
            }
        }
    }
}

/// With distinct names, the map has as many entries as the list has pairs.
pub proof fn lemma_named_map_of_len<T>(s: Seq<(String, T)>)
    requires
        names_unique(s),
    ensures
        named_map_of(s).dom().finite(),
        named_map_of(s).len() == s.len(),
    decreases s.len(),
{
    if s.len() == 0 {
        assert(named_map_of(s).dom() =~= Set::<Seq<char>>::empty());
    } else {
        let t = s.drop_last();
        assert(names_unique(t));
        lemma_named_map_of_len(t);
        lemma_named_map_of(t);
        assert(!named_map_of(t).contains_key(s.last().0@)) by {
            if named_map_of(t).contains_key(s.last().0@) {
                let i = choose|i: int| 0 <= i < t.len() && t[i].0@ == s.last().0@;
                assert(s[i] == t[i]);
            }
        }
        assert(named_map_of(s).dom() =~= named_map_of(t).dom().insert(s.last().0@));
    }
}

/// Items by name, each name at most once.
#[derive(Debug)]
pub struct NameMap<T> {
    entries: Vec<(String, T)>,
}

impl<T> NameMap<T> {
    #[verifier::type_invariant]
    closed spec fn distinct(self) -> bool {
        names_unique(self.entries@)
    }

    /// The pairs, in an order of the map's own.
    pub closed spec fn pairs(&self) -> Seq<(String, T)> {
        self.entries@
    }

    /// The items by name.
    pub open spec fn view(&self) -> Map<Seq<char>, T> {
        named_map_of(self.pairs())
    }

    /// An empty map.
    pub fn new() -> (r: Self)
        ensures
            r.view() == Map::<Seq<char>, T>::empty(),
            r.pairs().len() == 0,
    {
        NameMap { entries: Vec::new() }
    }

    /// Number of items.
    pub fn len(&self) -> (r: usize)
        ensures
            r == self.view().len(),
            r == self.pairs().len(),
    {
        proof {
            use_type_invariant(self);
            lemma_named_map_of_len(self.entries@);
        }
        self.entries.len()
    }

    /// The name of the `i`-th pair.
    pub fn name_at(&self, i: usize) -> (r: &String)
        requires
            i < self.pairs().len(),
        ensures
            *r == self.pairs()[i as int].0,
    {
        &self.entries[i].0
    }

    /// The item of the `i`-th pair.
    pub fn item_at(&self, i: usize) -> (r: &T)
        requires
            i < self.pairs().len(),
        ensures
            *r == self.pairs()[i as int].1,
    {
        &self.entries[i].1
    }

    fn index_of(&self, key: &str) -> (r: Option<usize>)
        ensures
            match r {
                Some(i) => i < self.entries@.len() && self.entries@[i as int].0@ == key@,
                None => forall|i: int| 0 <= i < self.entries@.len() ==> self.entries@[i].0@ != key@,
            },
    {
        let mut i: usize = 0;
        while i < self.entries.len()
            invariant
                i <= self.entries@.len(),
                forall|j: int| 0 <= j < i ==> self.entries@[j].0@ != key@,
            decreases self.entries@.len() - i,
        {
            if str_eq(self.entries[i].0.as_str(), key) {
                return Some(i);
            }
            i += 1;
        }
        None
    }

    /// The item of a name.
    pub fn get(&self, key: &str) -> (r: Option<&T>)
        ensures
            match r {
                Some(v) => self.view().contains_key(key@) && self.view()[key@] == *v,
                None => !self.view().contains_key(key@),
            },
    {
        proof {
            use_type_invariant(self);
            lemma_named_map_of(self.entries@);
        }
        match self.index_of(key) {
            Some(i) => Some(&self.entries[i].1),
            None => None,
        }
    }

    /// Takes the item of a name out of the map.
    pub fn take(&mut self, key: &str) -> (r: Option<T>)
        ensures
            final(self).view() == old(self).view().remove(key@),
            match r {
                Some(v) => old(self).view().contains_key(key@) && old(self).view()[key@] == v,
                None => !old(self).view().contains_key(key@),
            },
    {
        proof {
            use_type_invariant(&*self);
            lemma_named_map_of(self.entries@);
        }
        let ghost before = self.entries@;
        match self.index_of(key) {
            Some(i) => {
                let mut entries: Vec<(String, T)> = Vec::new();
                std::mem::swap(&mut entries, &mut self.entries);
                let (_, v) = entries.remove(i);
                proof {
                    let after = entries@;
                    assert(after == before.remove(i as int));
                    assert(names_unique(after));
                    lemma_named_map_of(after);
                    assert(named_map_of(after) =~= named_map_of(before).remove(key@)) by {
                        assert forall|q: Seq<char>| named_map_of(after).contains_key(q) <==> named_map_of(before).remove(key@).contains_key(q) by {
                            if named_map_of(after).contains_key(q) {
                                let j = choose|j: int| 0 <= j < after.len() && after[j].0@ == q;
                                if j < i {
                                    assert(before[j].0@ == q);
                                } else {
                                    assert(before[j + 1].0@ == q);
                                }
                            }
                            if named_map_of(before).remove(key@).contains_key(q) {
                                let j = choose|j: int| 0 <= j < before.len() && before[j].0@ == q;
                                if j < i {
                                    assert(after[j].0@ == q);
                                } else {
                                    assert(after[j - 1].0@ == q);
                                }
                            }
                        }
                        assert forall|q: Seq<char>| #[trigger] named_map_of(after).contains_key(q) implies named_map_of(after)[q] == named_map_of(before)[q] by {
                            let j = choose|j: int| 0 <= j < after.len() && after[j].0@ == q;
                            if j < i {
                                assert(before[j] == after[j]);
                                assert(named_map_of(before)[before[j].0@] == before[j].1);
                            } else {
                                assert(before[j + 1] == after[j]);
                                assert(named_map_of(before)[before[j + 1].0@] == before[j + 1].1);
                            }
                        }
                    }
                }
                self.entries = entries;
                Some(v)
            },
            None => None,
        }
    }

    /// Sets the item of a name, replacing any former one.
    pub fn insert(&mut self, key: String, value: T)
        ensures
            final(self).view() == old(self).view().insert(key@, value),
    {
        let _ = self.take(key.as_str());
        let ghost before = self.entries@;
        proof {
            use_type_invariant(&*self);
            lemma_named_map_of(self.entries@);
            assert(!named_map_of(before).contains_key(key@));
        }
        let mut entries: Vec<(String, T)> = Vec::new();
        std::mem::swap(&mut entries, &mut self.entries);
        entries.push((key, value));
        proof {
            assert(entries@.drop_last() == before);
            assert forall|i: int| 0 <= i < before.len() implies before[i].0@ != key@ by {
                if before[i].0@ == key@ {
                    assert(named_map_of(before).contains_key(key@));
                }
            }
        }
        self.entries = entries;
    }
}

} // verus!

verus! {

impl VarMap {
    /// A copy holding the same variables.
    pub fn clone(&self) -> (r: Self)
        ensures
            r@ == self@,
            r.pairs() == self.pairs(),
    {
        proof {
            use_type_invariant(self);
        }
        let mut entries: Vec<(String, String)> = Vec::new();
        let mut i: usize = 0;
        while i < self.entries.len()
            invariant
                i <= self.entries@.len(),
                entries@ == self.entries@.take(i as int),
            decreases self.entries@.len() - i,
        {
            entries.push((self.entries[i].0.clone(), self.entries[i].1.clone()));
            assert(self.entries@.take(i + 1) == self.entries@.take(i as int).push(self.entries@[i as int]));
            i += 1;
        }
        assert(self.entries@.take(i as int) == self.entries@);
        VarMap { entries }
    }

    /// Whether no variable is set.
    pub fn is_empty(&self) -> (r: bool)
        ensures
            r == (self@ == Map::<Seq<char>, Seq<char>>::empty()),
    {
        proof {
            use_type_invariant(self);
            lemma_map_of(self.entries@);
        }
        if self.entries.len() == 0 {
            assert(self@ =~= Map::<Seq<char>, Seq<char>>::empty());
            true
        } else {
            assert(self@.contains_key(self.entries@[0].0@));
            false
        }
    }
}

} // verus!

verus! {

impl<T> NameMap<T> {
    /// The names of the map, each once.
    pub fn names(&self) -> (r: Vec<String>)
        ensures
            forall|i: int, j: int| 0 <= i < j < r@.len() ==> r@[i]@ != r@[j]@,
            forall|n: Seq<char>| #[trigger] self@.contains_key(n) <==> exists|i: int| 0 <= i < r@.len() && r@[i]@ == n,
    {
        proof {
            use_type_invariant(self);
            lemma_named_map_of(self.entries@);
        }
        let mut r: Vec<String> = Vec::new();
        let mut i: usize = 0;
        while i < self.entries.len()
            invariant
                i <= self.entries@.len(),
                names_unique(self.entries@),
                r@.len() == i,
                forall|k: int| 0 <= k < i ==> (#[trigger] r@[k]) == self.entries@[k].0,
            decreases self.entries@.len() - i,
        {
            r.push(self.entries[i].0.clone());
            i += 1;
        }
        assert forall|n: Seq<char>| #[trigger] self@.contains_key(n) <==> exists|i: int| 0 <= i < r@.len() && r@[i]@ == n by {
            if self@.contains_key(n) {
                let k = choose|k: int| 0 <= k < self.entries@.len() && self.entries@[k].0@ == n;
                assert(r@[k]@ == n);
            }
            if exists|i: int| 0 <= i < r@.len() && r@[i]@ == n {
                let k = choose|k: int| 0 <= k < r@.len() && r@[k]@ == n;
                assert(self.entries@[k].0@ == n);
            }
        }
        r
    }
}

} // verus!

verus! {

impl VarMap {
    /// The variable whose name comes first in the order of `str`, with its
    /// value (what `BTreeMap::first_key_value` gives).
    pub fn first_key_value(&self) -> (r: Option<(&String, &String)>)
        ensures
            match r {
                Some((k, v)) => self@.contains_key(k@) && self@[k@] == v@
                    && forall|n: Seq<char>| #[trigger] self@.contains_key(n) && n != k@ ==> crate::text::str_lt(k@, n),
                None => self@ == Map::<Seq<char>, Seq<char>>::empty(),
            },
    {
        proof {
            use_type_invariant(self);
            lemma_map_of(self.entries@);
        }
        if self.entries.len() == 0 {
            assert(self@ =~= Map::<Seq<char>, Seq<char>>::empty());
            return None;
        }
        let mut best: usize = 0;
        let mut i: usize = 1;
        while i < self.entries.len()
            invariant
                1 <= i <= self.entries@.len(),
                best < i,
                keys_unique(self.entries@),
                forall|j: int| 0 <= j < i && j != best ==> crate::text::str_lt(self.entries@[best as int].0@, #[trigger] self.entries@[j].0@),
            decreases self.entries@.len() - i,
        {
            if crate::text::str_less(self.entries[i].0.as_str(), self.entries[best].0.as_str()) {
                proof {
                    assert forall|j: int| 0 <= j < i + 1 && j != i implies crate::text::str_lt(self.entries@[i as int].0@, #[trigger] self.entries@[j].0@) by {
                        if j != best {
                            crate::text::lemma_str_lt_transitive(self.entries@[i as int].0@, self.entries@[best as int].0@, self.entries@[j].0@);
                        }
                    }
                }
                best = i;
            } else {
                proof {
                    assert(self.entries@[i as int].0@ != self.entries@[best as int].0@);
                    crate::text::lemma_str_lt_total(self.entries@[i as int].0@, self.entries@[best as int].0@);
                }
            }
            i += 1;
        }
        proof {
            assert forall|n: Seq<char>| #[trigger] self@.contains_key(n) && n != self.entries@[best as int].0@
                implies crate::text::str_lt(self.entries@[best as int].0@, n) by {
                let j = choose|j: int| 0 <= j < self.entries@.len() && self.entries@[j].0@ == n;
                assert(j != best);
            }
        }
        Some((&self.entries[best].0, &self.entries[best].1))
    }
}

} // verus!

verus! {

/// A set of names, kept as a list without repetition.
#[derive(Debug)]
pub struct NameSet {
    items: Vec<String>,
}

/// The names of a list.
pub open spec fn names_of(s: Seq<String>) -> Set<Seq<char>> {
    Set::new(|n: Seq<char>| exists|i: int| 0 <= i < s.len() && s[i]@ == n)
}

impl View for NameSet {
    type V = Set<Seq<char>>;

    open spec fn view(&self) -> Set<Seq<char>> {
        names_of(self.items())
    }
}

impl NameSet {
    #[verifier::type_invariant]
    closed spec fn no_repeats(self) -> bool {
        forall|i: int, j: int| 0 <= i < j < self.items@.len() ==> self.items@[i]@ != self.items@[j]@
    }

    /// The names, in the order they were added.
    pub closed spec fn items(&self) -> Seq<String> {
        self.items@
    }

    /// No names.
    pub fn new() -> (r: Self)
        ensures
            r@ == Set::<Seq<char>>::empty(),
    {
        let r = NameSet { items: Vec::new() };
        assert(r@ =~= Set::<Seq<char>>::empty());
        r
    }

    /// Whether the set holds a name.
    pub fn contains(&self, name: &str) -> (r: bool)
        ensures
            r == self@.contains(name@),
    {
        let mut i: usize = 0;
        while i < self.items.len()
            invariant
                i <= self.items@.len(),
                forall|j: int| 0 <= j < i ==> self.items@[j]@ != name@,
            decreases self.items@.len() - i,
        {
            if str_eq(self.items[i].as_str(), name) {
                return true;
            }
            i += 1;
        }
        false
    }

    /// Adds a name.
    pub fn insert(&mut self, name: String)
        ensures
            final(self)@ == old(self)@.insert(name@),
    {
        proof {
            use_type_invariant(&*self);
        }
        if !self.contains(name.as_str()) {
            let ghost before = self.items@;
            let ghost n = name@;
            let mut items: Vec<String> = Vec::new();
            std::mem::swap(&mut items, &mut self.items);
            items.push(name);
            assert forall|i: int, j: int| 0 <= i < j < items@.len() implies items@[i]@ != items@[j]@ by {
                if j == before.len() {
                    assert(names_of(before).contains(items@[i]@) ==> items@[i]@ != n);
                    assert(before[i] == items@[i]);
                }
            }
            self.items = items;
            assert(self@ =~= names_of(before).insert(n)) by {
                assert forall|x: Seq<char>| self@.contains(x) == names_of(before).insert(n).contains(x) by {
                    if names_of(before).contains(x) && x != n {
                        let i = choose|i: int| 0 <= i < before.len() && before[i]@ == x;
                        assert(self.items@[i]@ == x);
                    }
                    if x == n {
                        assert(self.items@[before.len() as int]@ == x);
                    }
                    if self@.contains(x) && x != n {
                        let i = choose|i: int| 0 <= i < self.items@.len() && self.items@[i]@ == x;
                        assert(before[i]@ == x);
                    }
                }
            }
        } else {
            assert(self@ =~= self@.insert(name@));
        }
    }

    /// Adds every name of another set.
    pub fn extend(&mut self, other: NameSet)
        ensures
            final(self)@ == old(self)@.union(other@),
    {
        let ghost start = self@;
        let mut i: usize = 0;
        let ghost all = other.items@;
        assert(names_of(all.take(0)) =~= Set::<Seq<char>>::empty());
        let mut rest = other.items;
        assert(all.skip(0) == all);
        assert(all.len() == rest.len());
        while rest.len() > 0
            invariant
                i <= all.len() <= usize::MAX,
                rest@ == all.skip(i as int),
                self@ == start.union(names_of(all.take(i as int))),
            decreases rest@.len(),
        {
            assert(i < all.len());
            let x = rest.remove(0);
            assert(x == all[i as int]);
            assert(all.skip(i as int).drop_first() == all.skip(i + 1));
            self.insert(x);
            proof {
                let t1 = all.take(i + 1);
                let t0 = all.take(i as int);
                let a = all[i as int]@;
                assert forall|y: Seq<char>| names_of(t1).contains(y) implies names_of(t0).insert(a).contains(y) by {
                    let k = choose|k: int| 0 <= k < t1.len() && #[trigger] t1[k]@ == y;
                    if k < i {
                        assert(t0[k] == t1[k]);
                    }
                }
                assert forall|y: Seq<char>| names_of(t0).insert(a).contains(y) implies names_of(t1).contains(y) by {
                    if y == a {
                        assert(t1[i as int]@ == y);
                    } else {
                        let k = choose|k: int| 0 <= k < t0.len() && #[trigger] t0[k]@ == y;
                        assert(t1[k] == t0[k]);
                    }
                }
                assert(names_of(t1) =~= names_of(t0).insert(a));
            }
            i += 1;
        }
        assert(all.take(i as int) == all);
        assert(self@ =~= start.union(other@));
    }

    /// A copy.
    pub fn clone(&self) -> (r: Self)
        ensures
            r@ == self@,
    {
        proof {
            use_type_invariant(self);
        }
        let items = crate::text::clone_strings(&self.items);
        NameSet { items }
    }
}

} // verus!

verus! {

impl VarMap {
    /// The pairs of the map.
    pub fn to_pairs(&self) -> (r: Vec<(String, String)>)
        ensures
            map_of(r@) == self@,
    {
        let mut r: Vec<(String, String)> = Vec::new();
        let mut i: usize = 0;
        while i < self.entries.len()
            invariant
                i <= self.entries@.len(),
                r@ == self.entries@.take(i as int),
            decreases self.entries@.len() - i,
        {
            r.push((self.entries[i].0.clone(), self.entries[i].1.clone()));
            assert(self.entries@.take(i + 1) == self.entries@.take(i as int).push(self.entries@[i as int]));
            i += 1;
        }
        assert(self.entries@.take(i as int) == self.entries@);
        r
    }
}

} // verus!

verus! {

impl NameSet {
    /// Whether the set holds no name.
    pub fn is_empty(&self) -> (r: bool)
        ensures
            r == (self@ == Set::<Seq<char>>::empty()),
    {
        if self.items.len() == 0 {
            assert(self@ =~= Set::<Seq<char>>::empty());
            true
        } else {
            assert(self@.contains(self.items@[0]@));
            false
        }
    }
}

} // verus!
