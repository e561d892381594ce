//! Maps keyed by name, kept in ascending name order.
//!
//! `NameMap` holds what a `BTreeMap<String, V>` holds, with the same iteration order:
//! each name at most once, names ascending in code-point order (the order of `str`).
use vstd::prelude::*;

use crate::text;

verus! {

pub open spec fn names_ascending<V>(s: Seq<(String, V)>) -> bool {
    forall|i: int, j: int|
        0 <= i < j < s.len() ==> text::text_less(#[trigger] s[i].0@, #[trigger] s[j].0@)
}

/// Whether some entry of `s` is named `k`.
pub open spec fn has_name<V>(s: Seq<(String, V)>, k: Seq<char>) -> bool {
    exists|i: int| 0 <= i < s.len() && (#[trigger] s[i]).0@ == k
}

/// The map from names to values that the entries `s` hold.
pub open spec fn entry_map<V>(s: Seq<(String, V)>) -> Map<Seq<char>, V> {
    Map::new(
        |k: Seq<char>| has_name(s, k),
        |k: Seq<char>| s[choose|i: int| 0 <= i < s.len() && (#[trigger] s[i]).0@ == k].1,
    )
}

proof fn lemma_names_distinct<V>(s: Seq<(String, V)>)
    requires
        names_ascending(s),
    ensures
        forall|i: int, j: int|
            0 <= i < s.len() && 0 <= j < s.len() && i != j ==> (#[trigger] s[i]).0@ != (
            #[trigger] s[j]).0@,
{
    assert forall|i: int, j: int|
        0 <= i < s.len() && 0 <= j < s.len() && i != j implies (#[trigger] s[i]).0@ != (
        #[trigger] s[j]).0@ by {
        if i < j {
            assert(text::text_less(s[i].0@, s[j].0@));
            text::lemma_text_less_irreflexive(s[i].0@);
        } else {
            assert(text::text_less(s[j].0@, s[i].0@));
            text::lemma_text_less_irreflexive(s[j].0@);
        }
    }
}

/// In ascending entries, each entry's name maps to its value.
pub proof fn lemma_entry_at<V>(s: Seq<(String, V)>, i: int)
    requires
        names_ascending(s),
        0 <= i < s.len(),
    ensures
        entry_map(s).dom().contains(s[i].0@),
        entry_map(s)[s[i].0@] == s[i].1,
{
    lemma_names_distinct(s);
    let k = s[i].0@;
    assert(has_name(s, k));
    let j = choose|j: int| 0 <= j < s.len() && (#[trigger] s[j]).0@ == k;
    assert(j == i);
}

proof fn lemma_replace_entry<V>(s: Seq<(String, V)>, i: int, e: (String, V))
    requires
        names_ascending(s),
        0 <= i < s.len(),
        s[i].0@ == e.0@,
    ensures
        names_ascending(s.update(i, e)),
        entry_map(s.update(i, e)) == entry_map(s).insert(e.0@, e.1),
{
    let t = s.update(i, e);
    assert forall|a: int, b: int| 0 <= a < b < t.len() implies text::text_less(
        #[trigger] t[a].0@,
        #[trigger] t[b].0@,
    ) by {
        assert(t[a].0@ == s[a].0@);
        assert(t[b].0@ == s[b].0@);
    }
    let m = entry_map(s).insert(e.0@, e.1);
    assert forall|k: Seq<char>| #[trigger] entry_map(t).dom().contains(k) == m.dom().contains(k) by {
        if has_name(t, k) {
            let j = choose|j: int| 0 <= j < t.len() && (#[trigger] t[j]).0@ == k;
            assert(s[j].0@ == k);
        }
        if has_name(s, k) {
            let j = choose|j: int| 0 <= j < s.len() && (#[trigger] s[j]).0@ == k;
            assert(t[j].0@ == k);
        }
        if k == e.0@ {
            assert(t[i].0@ == k);
        }
    }
    assert forall|k: Seq<char>| #[trigger] entry_map(t).dom().contains(k) implies entry_map(t)[k]
        == m[k] by {
        let j = choose|j: int| 0 <= j < t.len() && (#[trigger] t[j]).0@ == k;
        lemma_entry_at(t, j);
        if j != i {
            lemma_names_distinct(s);
            assert(t[j] == s[j]);
            lemma_entry_at(s, j);
        }
    }
    assert(entry_map(t) =~= m);
}

proof fn lemma_insert_entry<V>(s: Seq<(String, V)>, i: int, e: (String, V))
    requires
        names_ascending(s),
        0 <= i <= s.len(),
        forall|j: int| 0 <= j < i ==> text::text_less(#[trigger] s[j].0@, e.0@),
        i < s.len() ==> text::text_less(e.0@, s[i].0@),
    ensures
        names_ascending(s.insert(i, e)),
        entry_map(s.insert(i, e)) == entry_map(s).insert(e.0@, e.1),
{
    let t = s.insert(i, e);
    s.insert_ensures(i, e);
    assert forall|a: int, b: int| 0 <= a < b < t.len() implies text::text_less(
        #[trigger] t[a].0@,
        #[trigger] t[b].0@,
    ) by {
        if a < i {
            if b == i {
            } else if b > i {
                assert(t[b] == s[b - 1]);
                assert(text::text_less(s[a].0@, s[b - 1].0@));
            }
        } else if a == i {
            assert(t[b] == s[b - 1]);
            if b - 1 > i {
                assert(text::text_less(s[i].0@, s[b - 1].0@));
                text::lemma_text_less_transitive(e.0@, s[i].0@, s[b - 1].0@);
            }
        } else {
            assert(t[a] == s[a - 1]);
            assert(t[b] == s[b - 1]);
            assert(text::text_less(s[a - 1].0@, s[b - 1].0@));
        }
    }
    lemma_names_distinct(s);
    let m = entry_map(s).insert(e.0@, e.1);
    assert forall|k: Seq<char>| #[trigger] entry_map(t).dom().contains(k) == m.dom().contains(k) by {
        if has_name(t, k) {
            let j = choose|j: int| 0 <= j < t.len() && (#[trigger] t[j]).0@ == k;
            if j < i {
                assert(s[j].0@ == k);
            } else if j > i {
                assert(t[j] == s[j - 1]);
                assert(s[j - 1].0@ == k);
            }
        }
        if has_name(s, k) {
            let j = choose|j: int| 0 <= j < s.len() && (#[trigger] s[j]).0@ == k;
            if j < i {
                assert(t[j].0@ == k);
            } else {
                assert(t[j + 1] == s[j]);
                assert(t[j + 1].0@ == k);
            }
        }
        if k == e.0@ {
            assert(t[i].0@ == k);
        }
    }
    assert forall|k: Seq<char>| #[trigger] entry_map(t).dom().contains(k) implies entry_map(t)[k]
        == m[k] by {
        let j = choose|j: int| 0 <= j < t.len() && (#[trigger] t[j]).0@ == k;
        lemma_entry_at(t, j);
        if j < i {
            lemma_entry_at(s, j);
            text::lemma_text_less_irreflexive(e.0@);
        } else if j > i {
            assert(t[j] == s[j - 1]);
            lemma_entry_at(s, j - 1);
            assert(text::text_less(e.0@, s[j - 1].0@)) by {
                if j - 1 > i {
                    assert(text::text_less(s[i].0@, s[j - 1].0@));
                    text::lemma_text_less_transitive(e.0@, s[i].0@, s[j - 1].0@);
                }
            }
            text::lemma_text_less_irreflexive(e.0@);
        }
    }
    assert(entry_map(t) =~= m);
}

proof fn lemma_remove_entry<V>(s: Seq<(String, V)>, i: int)
    requires
        names_ascending(s),
        0 <= i < s.len(),
    ensures
        names_ascending(s.remove(i)),
        entry_map(s.remove(i)) == entry_map(s).remove(s[i].0@),
{
    let t = s.remove(i);
    s.remove_ensures(i);
    assert forall|a: int, b: int| 0 <= a < b < t.len() implies text::text_less(
        #[trigger] t[a].0@,
        #[trigger] t[b].0@,
    ) by {
        let a0 = if a < i { a } else { a + 1 };
        let b0 = if b < i { b } else { b + 1 };
        assert(t[a] == s[a0]);
        assert(t[b] == s[b0]);
        assert(text::text_less(s[a0].0@, s[b0].0@));
    }
    lemma_names_distinct(s);
    let m = entry_map(s).remove(s[i].0@);
    assert forall|k: Seq<char>| #[trigger] entry_map(t).dom().contains(k) == m.dom().contains(k) by {
        if has_name(t, k) {
            let j = choose|j: int| 0 <= j < t.len() && (#[trigger] t[j]).0@ == k;
            let j0 = if j < i { j } else { j + 1 };
            assert(t[j] == s[j0]);
            assert(s[j0].0@ == k);
        }
        if has_name(s, k) && k != s[i].0@ {
            let j = choose|j: int| 0 <= j < s.len() && (#[trigger] s[j]).0@ == k;
            if j < i {
                assert(t[j].0@ == k);
            } else {
                assert(t[j - 1] == s[j]);
                assert(t[j - 1].0@ == k);
            }
        }
    }
    assert forall|k: Seq<char>| #[trigger] entry_map(t).dom().contains(k) implies entry_map(t)[k]
        == m[k] by {
        let j = choose|j: int| 0 <= j < t.len() && (#[trigger] t[j]).0@ == k;
        lemma_entry_at(t, j);
        let j0 = if j < i { j } else { j + 1 };
        assert(t[j] == s[j0]);
        lemma_entry_at(s, j0);
    }
    assert(entry_map(t) =~= m);
}

/// Values by name, in ascending name order.
#[derive(Debug, PartialEq)]
pub struct NameMap<V> {
    entries: Vec<(String, V)>,
}

impl<V> View for NameMap<V> {
    type V = Map<Seq<char>, V>;

    closed spec fn view(&self) -> Map<Seq<char>, V> {
        entry_map(self.entries@)
    }
}

impl<V: Copy> Clone for NameMap<V> {
    fn clone(&self) -> (b: Self)
        ensures
            b@ == self@,
            self.wf() ==> b.wf(),
    {
        let mut entries: Vec<(String, V)> = Vec::new();
        let mut i: usize = 0;
        while i < self.entries.len()
            invariant
                i <= self.entries@.len(),
                entries@ == self.entries@.subrange(0, i as int),
            decreases self.entries@.len() - i,
        {
            let name = self.entries[i].0.clone();
            entries.push((name, self.entries[i].1));
            assert(entries@ =~= self.entries@.subrange(0, i + 1));
            i = i + 1;
        }
        assert(entries@ =~= self.entries@);
        NameMap { entries }
    }
}

/// Where `name` belongs among ascending entries: after every smaller name.
fn insertion_point<V>(entries: &Vec<(String, V)>, name: &str) -> (i: usize)
    ensures
        i <= entries@.len(),
        forall|j: int| 0 <= j < i ==> text::text_less(#[trigger] entries@[j].0@, name@),
        i < entries@.len() ==> !text::text_less(entries@[i as int].0@, name@),
{
    let mut i: usize = 0;
    while i < entries.len()
        invariant
            i <= entries@.len(),
            forall|j: int| 0 <= j < i ==> text::text_less(#[trigger] entries@[j].0@, name@),
        decreases entries@.len() - i,
    {
        if !text::text_lt(entries[i].0.as_str(), name) {
            return i;
        }
        i = i + 1;
    }
    i
}

/// The index of the entry named `name`, if there is one.
fn index_of<V>(entries: &Vec<(String, V)>, name: &str) -> (r: Option<usize>)
    ensures
        match r {
            Some(i) => i < entries@.len() && entries@[i as int].0@ == name@,
            None => !has_name(entries@, name@),
        },
{
    let mut i: usize = 0;
    while i < entries.len()
        invariant
            i <= entries@.len(),
            forall|j: int| 0 <= j < i ==> (#[trigger] entries@[j]).0@ != name@,
        decreases entries@.len() - i,
    {
        if text::str_eq(entries[i].0.as_str(), name) {
            return Some(i);
        }
        i = i + 1;
    }
    None
}

impl<V> NameMap<V> {
    /// Names ascend strictly.
    pub closed spec fn wf(&self) -> bool {
        names_ascending(self.entries@)
    }

    /// An empty map.
    pub fn new() -> (b: Self)
        ensures
            b.wf(),
            b@ == Map::<Seq<char>, V>::empty(),
    {
        let b = NameMap { entries: Vec::new() };
        assert(b@ =~= Map::<Seq<char>, V>::empty());
        b
    }

    /// Whether the map holds no name.
    pub fn is_empty(&self) -> (r: bool)
        requires
            self.wf(),
        ensures
            r == (self@ == Map::<Seq<char>, V>::empty()),
    {
        if self.entries.len() == 0 {
            assert(self@ =~= Map::<Seq<char>, V>::empty());
            true
        } else {
            proof {
                lemma_entry_at(self.entries@, 0);
                assert(!Map::<Seq<char>, V>::empty().dom().contains(self.entries@[0].0@));
            }
            false
        }
    }

    /// The entries, in ascending name order.
    pub fn entries(&self) -> (r: &Vec<(String, V)>)
        requires
            self.wf(),
        ensures
            names_ascending(r@),
            entry_map(r@) == self@,
    {
        &self.entries
    }

    /// The entries, in ascending name order, taken out of the map.
    pub fn into_entries(self) -> (r: Vec<(String, V)>)
        requires
            self.wf(),
        ensures
            names_ascending(r@),
            entry_map(r@) == self@,
    {
        self.entries
    }

    /// The value of `name`, if the map holds it.
    pub fn get(&self, name: &str) -> (r: Option<&V>)
        requires
            self.wf(),
        ensures
            match r {
                Some(v) => self@.dom().contains(name@) && *v == self@[name@],
                None => !self@.dom().contains(name@),
            },
    {
        match index_of(&self.entries, name) {
            Some(i) => {
                proof {
                    lemma_entry_at(self.entries@, i as int);
                }
                Some(&self.entries[i].1)
            },
            None => None,
        }
    }

    /// Whether the map holds `name`.
    pub fn contains_key(&self, name: &str) -> (r: bool)
        requires
            self.wf(),
        ensures
            r == self@.dom().contains(name@),
    {
        self.get(name).is_some()
    }

    /// Sets the value of `name`, replacing an earlier one.
    pub fn insert(&mut self, name: String, value: V)
        requires
            old(self).wf(),
        ensures
            final(self).wf(),
            final(self)@ == old(self)@.insert(name@, value),
    {
        let ghost before = self.entries@;
        let i = insertion_point(&self.entries, name.as_str());
        if i < self.entries.len() && text::str_eq(self.entries[i].0.as_str(), name.as_str()) {
            proof {
                lemma_replace_entry(before, i as int, (name, value));
            }
            self.entries[i] = (name, value);
        } else {
            proof {
                if i < before.len() {
                    text::lemma_text_less_total(before[i as int].0@, name@);
                }
                lemma_insert_entry(before, i as int, (name, value));
            }
            self.entries.insert(i, (name, value));
        }
    }

    /// Removes `name`.
    pub fn remove(&mut self, name: &str)
        requires
            old(self).wf(),
        ensures
            final(self).wf(),
            final(self)@ == old(self)@.remove(name@),
    {
        let ghost before = self.entries@;
        match index_of(&self.entries, name) {
            Some(i) => {
                proof {
                    lemma_remove_entry(before, i as int);
                }
                self.entries.remove(i);
            },
            None => {
                assert(entry_map(before) =~= entry_map(before).remove(name@));
            },
        }
    }
}

} // verus!
