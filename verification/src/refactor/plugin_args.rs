//! The argument map handed to a refactor plugin.
//!
//! Keys are unique; inserting an existing key replaces its value. The map is
//! viewed as a `Map` from key text to value.

use vstd::prelude::*;

use crate::text::str_eq;

verus! {

/// A plugin argument value.
#[derive(Debug, Clone)]
pub enum PluginArgValue {
    Text(String),
    Bool(bool),
    Number(String),
}

/// A plugin argument value as plain data.
pub enum ArgModel {
    Text(Seq<char>),
    Bool(bool),
    Number(Seq<char>),
}

pub open spec fn arg_model(v: PluginArgValue) -> ArgModel {
    match v {
        PluginArgValue::Text(s) => ArgModel::Text(s@),
        PluginArgValue::Bool(b) => ArgModel::Bool(b),
        PluginArgValue::Number(s) => ArgModel::Number(s@),
    }
}

/// The map that a list of entries denotes (a later entry wins).
pub open spec fn entries_map(s: Seq<(String, PluginArgValue)>) -> Map<Seq<char>, ArgModel>
    decreases s.len(),
{
    if s.len() == 0 {
        Map::empty()
    } else {
        entries_map(s.drop_last()).insert(s.last().0@, arg_model(s.last().1))
    }
}

/// No key occurs twice.
pub open spec fn distinct_keys(s: Seq<(String, PluginArgValue)>) -> bool {
    forall|i: int, j: int| 0 <= i < j < s.len() ==> s[i].0@ != s[j].0@
}

/// Plugin arguments: unique keys, each with a value.
pub struct PluginArgs {
    entries: Vec<(String, PluginArgValue)>,
}

impl View for PluginArgs {
    type V = Map<Seq<char>, ArgModel>;

    closed spec fn view(&self) -> Map<Seq<char>, ArgModel> {
        entries_map(self.entries@)
    }
}

/// A key is in the map exactly when some entry has it; with unique keys,
/// that entry holds its value.
proof fn lemma_entries_map_lookup(s: Seq<(String, PluginArgValue)>, k: Seq<char>)
    ensures
        entries_map(s).dom().contains(k) <==> exists|i: int| 0 <= i < s.len() && s[i].0@ == k,
        distinct_keys(s) ==> forall|i: int|
            0 <= i < s.len() && s[i].0@ == k ==> entries_map(s)[k] == arg_model(s[i].1),
    decreases s.len(),
{
    if s.len() > 0 {
        let p = s.drop_last();
        lemma_entries_map_lookup(p, k);
        if entries_map(s).dom().contains(k) && s.last().0@ != k {
            let i = choose|i: int| 0 <= i < p.len() && p[i].0@ == k;
            assert(s[i] == p[i]);
        }
        if exists|i: int| 0 <= i < s.len() && s[i].0@ == k {
            let i = choose|i: int| 0 <= i < s.len() && s[i].0@ == k;
            if i < p.len() {
                assert(p[i] == s[i]);
            }
        }
        if distinct_keys(s) {
            assert(distinct_keys(p)) by {
                assert forall|a: int, b: int| 0 <= a < b < p.len() implies p[a].0@ != p[b].0@ by {
                    assert(p[a] == s[a] && p[b] == s[b]);
                }
            }
            assert forall|i: int| 0 <= i < s.len() && s[i].0@ == k implies entries_map(s)[k]
                == arg_model(s[i].1) by {
                if i < p.len() {
                    assert(p[i] == s[i]);
                    assert(s.last().0@ != k);
                }
            }
        }
    }
}

/// Replacing the entry of a key replaces its value in the map.
proof fn lemma_entries_map_update(
    s: Seq<(String, PluginArgValue)>,
    i: int,
    e: (String, PluginArgValue),
)
    requires
        distinct_keys(s),
        0 <= i < s.len(),
        e.0@ == s[i].0@,
    ensures
        entries_map(s.update(i, e)) == entries_map(s).insert(e.0@, arg_model(e.1)),
    decreases s.len(),
{
    let p = s.drop_last();
    if i == s.len() - 1 {
        assert(s.update(i, e).drop_last() =~= p);
        assert(entries_map(s.update(i, e)) =~= entries_map(s).insert(e.0@, arg_model(e.1)));
    } else {
        assert(distinct_keys(p)) by {
            assert forall|a: int, b: int| 0 <= a < b < p.len() implies p[a].0@ != p[b].0@ by {
                assert(p[a] == s[a] && p[b] == s[b]);
            }
        }
        lemma_entries_map_update(p, i, e);
        assert(s.update(i, e).drop_last() =~= p.update(i, e));
        assert(s.update(i, e).last() == s.last());
        assert(s[i].0@ != s.last().0@);
        assert(entries_map(s.update(i, e)) =~= entries_map(s).insert(e.0@, arg_model(e.1)));
    }
}

/// Removing the entry of a key removes the key from the map.
proof fn lemma_entries_map_remove(s: Seq<(String, PluginArgValue)>, i: int)
    requires
        distinct_keys(s),
        0 <= i < s.len(),
    ensures
        entries_map(s.remove(i)) == entries_map(s).remove(s[i].0@),
        distinct_keys(s.remove(i)),
    decreases s.len(),
{
    let p = s.drop_last();
    let k = s[i].0@;
    assert(distinct_keys(p)) by {
        assert forall|a: int, b: int| 0 <= a < b < p.len() implies p[a].0@ != p[b].0@ by {
            assert(p[a] == s[a] && p[b] == s[b]);
        }
    }
    if i == s.len() - 1 {
        assert(s.remove(i) =~= p);
        lemma_entries_map_lookup(p, k);
        assert(!entries_map(p).dom().contains(k)) by {
            if entries_map(p).dom().contains(k) {
                let j = choose|j: int| 0 <= j < p.len() && p[j].0@ == k;
                assert(s[j].0@ == s[i].0@);
            }
        }
        assert(entries_map(s.remove(i)) =~= entries_map(s).remove(k));
    } else {
        lemma_entries_map_remove(p, i);
        assert(s.remove(i).drop_last() =~= p.remove(i));
        assert(s.remove(i).last() == s.last());
        assert(s[i].0@ != s.last().0@);
        assert(entries_map(s.remove(i)) =~= entries_map(s).remove(k));
    }
    assert(distinct_keys(s.remove(i))) by {
        let r = s.remove(i);
        assert forall|a: int, b: int| 0 <= a < b < r.len() implies r[a].0@ != r[b].0@ by {
            let sa = if a < i {
                a
            } else {
                a + 1
            };
            let sb = if b < i {
                b
            } else {
                b + 1
            };
            assert(r[a] == s[sa] && r[b] == s[sb]);
        }
    }
}

impl PluginArgs {
    #[verifier::type_invariant]
    spec fn unique_keys(self) -> bool {
        distinct_keys(self.entries@)
    }

    /// An empty argument map.
    pub fn new() -> (m: Self)
        ensures
            m@ == Map::<Seq<char>, ArgModel>::empty(),
    {
        PluginArgs { entries: Vec::new() }
    }

    fn index_of(&self, key: &str) -> (r: Option<usize>)
        ensures
            match r {
                Some(i) => i < self.entries@.len() && self.entries@[i as int].0@ == key@,
                None => forall|i: int|
                    0 <= i < self.entries@.len() ==> self.entries@[i].0@ != key@,
            },
    {
        let mut i: usize = 0;
        while i < self.entries.len()
            invariant
                i <= self.entries@.len(),
                forall|j: int| 0 <= j < i ==> self.entries@[j].0@ != key@,
            decreases self.entries@.len() - i,
        {
            if str_eq(self.entries[i].0.as_str(), key) {
                return Some(i);
            }
            i = i + 1;
        }
        None
    }

    /// Whether `key` has a value.
    pub fn contains_key(&self, key: &str) -> (r: bool)
        ensures
            r == self@.dom().contains(key@),
    {
        proof {
            lemma_entries_map_lookup(self.entries@, key@);
        }
        self.index_of(key).is_some()
    }

    /// The value of `key`.
    pub fn get(&self, key: &str) -> (r: Option<&PluginArgValue>)
        ensures
            match r {
                Some(v) => self@.dom().contains(key@) && self@[key@] == arg_model(*v),
                None => !self@.dom().contains(key@),
            },
    {
        proof {
            use_type_invariant(self);
            lemma_entries_map_lookup(self.entries@, key@);
        }
        match self.index_of(key) {
            Some(i) => Some(&self.entries[i].1),
            None => None,
        }
    }

    /// Sets `key` to `value`, replacing any earlier value.
    pub fn insert(&mut self, key: String, value: PluginArgValue)
        ensures
            final(self)@ == old(self)@.insert(key@, arg_model(value)),
    {
        proof {
            use_type_invariant(&*self);
        }
        let ghost before = self.entries@;
        let found = self.index_of(key.as_str());
        let mut entries: Vec<(String, PluginArgValue)> = Vec::new();
        std::mem::swap(&mut entries, &mut self.entries);
        match found {
            Some(i) => {
                let ghost e = (key, value);
                proof {
                    lemma_entries_map_update(before, i as int, e);
                }
                let ghost after = before.update(i as int, e);
                assert(distinct_keys(after)) by {
                    assert forall|a: int, b: int| 0 <= a < b < after.len() implies after[a].0@
                        != after[b].0@ by {
                        assert(a != i ==> after[a] == before[a]);
                        assert(b != i ==> after[b] == before[b]);
                    }
                }
                entries.set(i, (key, value));
                assert(entries@ == after);
                self.entries = entries;
            },
            None => {
                let ghost after = before.push((key, value));
                assert(distinct_keys(after)) by {
                    assert forall|a: int, b: int| 0 <= a < b < after.len() implies after[a].0@
                        != after[b].0@ by {
                        assert(after[a] == before[a]);
                        if b < before.len() {
                            assert(after[b] == before[b]);
                        }
                    }
                }
                entries.push((key, value));
                assert(entries@ == after);
                assert(after.drop_last() =~= before);
                self.entries = entries;
            },
        }
    }

    /// Removes `key`, returning its value.
    pub fn remove(&mut self, key: &str) -> (r: Option<PluginArgValue>)
        ensures
            final(self)@ == old(self)@.remove(key@),
            match r {
                Some(v) => old(self)@.dom().contains(key@) && old(self)@[key@] == arg_model(v),
                None => !old(self)@.dom().contains(key@),
            },
    {
        proof {
            use_type_invariant(&*self);
            lemma_entries_map_lookup(self.entries@, key@);
        }
        let ghost before = self.entries@;
        match self.index_of(key) {
            Some(i) => {
                proof {
                    lemma_entries_map_remove(before, i as int);
                }
                let mut entries: Vec<(String, PluginArgValue)> = Vec::new();
                std::mem::swap(&mut entries, &mut self.entries);
                let (_, v) = entries.remove(i);
                self.entries = entries;
                Some(v)
            },
            None => {
                assert(before.remove(0) == before.remove(0));
                assert(entries_map(before) =~= entries_map(before).remove(key@));
                None
            },
        }
    }

    /// The entries, each key once, in insertion order.
    pub fn entries(&self) -> (r: &Vec<(String, PluginArgValue)>)
        ensures
            entries_map(r@) == self@,
            distinct_keys(r@),
    {
        proof {
            use_type_invariant(self);
        }
        &self.entries
    }
}

} // verus!
