//! A map from names to indices, kept as a list of distinct names.
use vstd::prelude::*;
use crate::text::{str_eq, to_owned_string};

verus! {

/// The map that a list of (name, index) entries stands for: a later entry
/// overrides an earlier one with the same name.
pub open spec fn entries_map(s: Seq<(Seq<char>, usize)>) -> Map<Seq<char>, usize>
    decreases s.len(),
{
    if s.len() == 0 {
        Map::empty()
    } else {
        entries_map(s.drop_last()).insert(s.last().0, s.last().1)
    }
}

/// Whether no name occurs twice in a list of entries.
pub open spec fn distinct_names(s: Seq<(Seq<char>, usize)>) -> bool {
    forall|i: int, j: int| 0 <= i < j < s.len() ==> s[i].0 != s[j].0
}

/// Whether some entry of a list carries the name `k`.
pub open spec fn has_name(s: Seq<(Seq<char>, usize)>, k: Seq<char>) -> bool {
    exists|i: int| 0 <= i < s.len() && (#[trigger] s[i]).0 == k
}

/// The entries of a list name exactly the keys of its map, and with distinct
/// names each entry's index is what the map gives for its name.
pub proof fn lemma_entries_map(s: Seq<(Seq<char>, usize)>)
    ensures
        forall|k: Seq<char>| #[trigger] entries_map(s).contains_key(k) <==> has_name(s, k),
        distinct_names(s) ==> forall|i: int| 0 <= i < s.len() ==> entries_map(s)[(#[trigger] s[i]).0] == s[i].1,
    decreases s.len(),
{
    if s.len() > 0 {
        let p = s.drop_last();
        lemma_entries_map(p);
        assert forall|k: Seq<char>| #[trigger] entries_map(s).contains_key(k) <==> has_name(s, k) by {
            if entries_map(s).contains_key(k) {
                if k == s.last().0 {
                    assert(s[s.len() - 1].0 == k);
                } else {
                    assert(entries_map(p).contains_key(k));
                    let i = choose|i: int| 0 <= i < p.len() && (#[trigger] p[i]).0 == k;
                    assert(s[i] == p[i]);
                }
            }
            if has_name(s, k) {
                let i = choose|i: int| 0 <= i < s.len() && (#[trigger] s[i]).0 == k;
                if i < s.len() - 1 {
                    assert(p[i] == s[i]);
                    assert(has_name(p, k));
                    assert(entries_map(p).contains_key(k));
                }
            }
        }
        if distinct_names(s) {
            assert(distinct_names(p)) by {
                assert forall|a: int, b: int| 0 <= a < b < p.len() implies p[a].0 != p[b].0 by {
                    assert(p[a] == s[a] && p[b] == s[b]);
                }
            }
            assert forall|i: int| 0 <= i < s.len() implies entries_map(s)[(#[trigger] s[i]).0] == s[i].1 by {
                if i < s.len() - 1 {
                    assert(p[i] == s[i]);
                    assert(s[i].0 != s[s.len() - 1].0);
                    assert(entries_map(p)[p[i].0] == p[i].1);
                }
            }
        }
    }
}

/// A map from names to indices, such as a class's field names to field
/// positions.
pub struct NameMap {
    entries: Vec<(String, usize)>,
}

impl View for NameMap {
    type V = Map<Seq<char>, usize>;

    closed spec fn view(&self) -> Map<Seq<char>, usize> {
        entries_map(self.entries.deep_view())
    }
}

impl NameMap {
    /// The entries in the order they were first inserted.
    pub closed spec fn entries(&self) -> Seq<(Seq<char>, usize)> {
        self.entries.deep_view()
    }

    /// Whether no name is listed twice.
    pub closed spec fn wf(&self) -> bool {
        distinct_names(self.entries.deep_view())
    }

    /// The map's view is that of its entries, and its names are distinct.
    pub proof fn lemma_view(&self)
        requires
            self.wf(),
        ensures
            self@ == entries_map(self.entries()),
            distinct_names(self.entries()),
            forall|k: Seq<char>| #[trigger] self@.contains_key(k) <==> has_name(self.entries(), k),
            forall|i: int| 0 <= i < self.entries().len() ==> self@[(#[trigger] self.entries()[i]).0] == self.entries()[i].1,
    {
        lemma_entries_map(self.entries.deep_view());
    }

    /// An empty map.
    pub fn new() -> (r: NameMap)
        ensures
            r.wf(),
            r@ == Map::<Seq<char>, usize>::empty(),
            r.entries().len() == 0,
    {
        let r = NameMap { entries: Vec::new() };
        assert(r.entries.deep_view() =~= Seq::<(Seq<char>, usize)>::empty());
        r
    }

    /// The position of `name` in the entry list, if it is there.
    fn position(&self, name: &str) -> (r: Option<usize>)
        requires
            self.wf(),
        ensures
            match r {
                Some(i) => i < self.entries().len() && self.entries()[i as int].0 == name@,
                None => forall|i: int| 0 <= i < self.entries().len() ==> self.entries()[i].0 != name@,
            },
    {
        let ghost s = self.entries.deep_view();
        let mut i: usize = 0;
        while i < self.entries.len()
            invariant
                s == self.entries.deep_view(),
                s.len() == self.entries@.len(),
                i <= s.len(),
                forall|j: int| 0 <= j < i ==> s[j].0 != name@,
            decreases s.len() - i,
        {
            assert(s[i as int] == self.entries@[i as int].deep_view());
            if str_eq(self.entries[i].0.as_str(), name) {
                return Some(i);
            }
            i = i + 1;
        }
        None
    }

    /// The index stored under `name`.
    pub fn get(&self, name: &str) -> (r: Option<usize>)
        requires
            self.wf(),
        ensures
            r == (if self@.contains_key(name@) { Some(self@[name@]) } else { None }),
    {
        proof {
            self.lemma_view();
        }
        match self.position(name) {
            Some(i) => {
                let ghost s = self.entries.deep_view();
                assert(s[i as int] == self.entries@[i as int].deep_view());
                Some(self.entries[i].1)
            },
            None => None,
        }
    }

    /// Stores `value` under `name`, replacing what was stored there.
    pub fn insert(&mut self, name: &str, value: usize)
        requires
            old(self).wf(),
        ensures
            final(self).wf(),
            final(self)@ == old(self)@.insert(name@, value),
    {
        proof {
            self.lemma_view();
        }
        let ghost s0 = self.entries.deep_view();
        let ghost m0 = self@;
        match self.position(name) {
            Some(i) => {
                let key = to_owned_string(name);
                self.entries.set(i, (key, value));
                let ghost s1 = self.entries.deep_view();
                assert(s1 =~= s0.update(i as int, (name@, value)));
                assert(distinct_names(s1)) by {
                    assert forall|a: int, b: int| 0 <= a < b < s1.len() implies s1[a].0 != s1[b].0 by {
                        if a != i && b != i {
                            assert(s1[a] == s0[a] && s1[b] == s0[b]);
                        } else if a == i {
                            assert(s0[b].0 != s0[a].0);
                        } else {
                            assert(s0[b].0 != s0[a].0);
                        }
                    }
                }
                proof {
                    lemma_entries_map(s1);
                    assert forall|k: Seq<char>| #[trigger] self@.contains_key(k) <==> m0.insert(name@, value).contains_key(k) by {
                        if m0.insert(name@, value).contains_key(k) && k != name@ {
                            assert(m0.contains_key(k));
                            let j = choose|j: int| 0 <= j < s0.len() && (#[trigger] s0[j]).0 == k;
                            assert(s1[j].0 == k);
                            assert(has_name(s1, k));
                        }
                        if k == name@ {
                            assert(s1[i as int].0 == k);
                            assert(has_name(s1, k));
                        }
                        if self@.contains_key(k) {
                            let j = choose|j: int| 0 <= j < s1.len() && (#[trigger] s1[j]).0 == k;
                            if j != i {
                                assert(s0[j].0 == k);
                                assert(has_name(s0, k));
                            }
                        }
                    }
                    assert forall|k: Seq<char>| #[trigger] self@.contains_key(k) implies self@[k] == m0.insert(name@, value)[k] by {
                        let j = choose|j: int| 0 <= j < s1.len() && (#[trigger] s1[j]).0 == k;
                        assert(self@[s1[j].0] == s1[j].1);
                        if j != i {
                            assert(s0[j] == s1[j]);
                            assert(m0[s0[j].0] == s0[j].1);
                        }
                    }
                    assert(self@ =~= m0.insert(name@, value));
                }
            },
            None => {
                let key = to_owned_string(name);
                self.entries.push((key, value));
                let ghost s1 = self.entries.deep_view();
                assert(s1 =~= s0.push((name@, value)));
                assert(s1.drop_last() =~= s0);
                assert(distinct_names(s1)) by {
                    assert forall|a: int, b: int| 0 <= a < b < s1.len() implies s1[a].0 != s1[b].0 by {
                        if b == s1.len() - 1 {
                            assert(s1[a] == s0[a]);
                        } else {
                            assert(s1[a] == s0[a] && s1[b] == s0[b]);
                        }
                    }
                }
            },
        }
    }

    /// A copy of this map.
    pub fn copy(&self) -> (r: NameMap)
        requires
            self.wf(),
        ensures
            r.wf(),
            r@ == self@,
            r.entries() == self.entries(),
    {
        let ghost s = self.entries.deep_view();
        let mut entries: Vec<(String, usize)> = Vec::new();
        let mut i: usize = 0;
        while i < self.entries.len()
            invariant
                s == self.entries.deep_view(),
                s.len() == self.entries@.len(),
                i <= s.len(),
                entries@.len() == i,
                forall|j: int| 0 <= j < i ==> entries@[j].deep_view() == s[j],
            decreases s.len() - i,
        {
            assert(s[i as int] == self.entries@[i as int].deep_view());
            let name = to_owned_string(self.entries[i].0.as_str());
            entries.push((name, self.entries[i].1));
            i = i + 1;
        }
        assert(entries.deep_view() =~= s);
        NameMap { entries }
    }
    /// A name stored with `value`, if there is one.
    pub fn name_of(&self, value: usize) -> (r: Option<String>)
        requires
            self.wf(),
        ensures
            r matches Some(n) ==> self@.contains_key(n@) && self@[n@] == value,
            r is None ==> forall|k: Seq<char>| #[trigger] self@.contains_key(k) ==> self@[k] != value,
    {
        proof {
            self.lemma_view();
        }
        let ghost s = self.entries.deep_view();
        let mut i: usize = 0;
        while i < self.entries.len()
            invariant
                s == self.entries.deep_view(),
                s.len() == self.entries@.len(),
                i <= s.len(),
                self.wf(),
                forall|j: int| 0 <= j < i ==> s[j].1 != value,
            decreases s.len() - i,
        {
            assert(s[i as int] == self.entries@[i as int].deep_view());
            if self.entries[i].1 == value {
                proof {
                    self.lemma_view();
                    assert(has_name(s, s[i as int].0));
                }
                assert(self@[s[i as int].0] == s[i as int].1);
                return Some(to_owned_string(self.entries[i].0.as_str()));
            }
            i = i + 1;
        }
        proof {
            assert forall|k: Seq<char>| #[trigger] self@.contains_key(k) implies self@[k] != value by {
                let j = choose|j: int| 0 <= j < s.len() && (#[trigger] s[j]).0 == k;
                assert(self@[s[j].0] == s[j].1);
            }
        }
        None
    }
}

} // verus!
