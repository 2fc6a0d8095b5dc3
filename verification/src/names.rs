//! A map from names to values that is walked in the order of the names.

use crate::text::{
    lemma_text_lt_asymmetric, lemma_text_lt_irreflexive, lemma_text_lt_total,
    lemma_text_lt_transitive, precedes, same_text, text_lt,
};
use vstd::prelude::*;

verus! {

/// Values under names. No name occurs twice, and the entries stand in the
/// order of their names.
#[derive(Debug)]
pub struct NameMap<T> {
    entries: Vec<(String, T)>,
}

/// The names and values of a list of entries.
pub open spec fn named<T>(entries: Seq<(String, T)>) -> Seq<(Seq<char>, T)> {
    entries.map_values(|entry: (String, T)| (entry.0@, entry.1))
}

/// Each entry has a name that comes before the names of those behind it.
pub open spec fn ordered<T>(entries: Seq<(Seq<char>, T)>) -> bool {
    forall|i: int, j: int| 0 <= i < j < entries.len() ==> text_lt(entries[i].0, entries[j].0)
}

/// Whether one of the entries has the name.
pub open spec fn has_name<T>(entries: Seq<(Seq<char>, T)>, name: Seq<char>) -> bool {
    exists|i: int| 0 <= i < entries.len() && entries[i].0 == name
}

/// The place of an entry with the name.
pub open spec fn place_of<T>(entries: Seq<(Seq<char>, T)>, name: Seq<char>) -> int {
    choose|i: int| 0 <= i < entries.len() && entries[i].0 == name
}

/// The entries as a map: the value under a name is that of the entry with
/// the name.
pub open spec fn as_map<T>(entries: Seq<(Seq<char>, T)>) -> Map<Seq<char>, T> {
    Map::new(
        |name: Seq<char>| has_name(entries, name),
        |name: Seq<char>| entries[place_of(entries, name)].1,
    )
}

/// The map after the entries of a list were put into it one after the
/// other: a later entry takes the place of an earlier one of its name.
pub open spec fn with_all<T>(map: Map<Seq<char>, T>, entries: Seq<(Seq<char>, T)>) -> Map<
    Seq<char>,
    T,
>
    decreases entries.len(),
{
    if entries.len() == 0 {
        map
    } else {
        with_all(map, entries.drop_last()).insert(entries.last().0, entries.last().1)
    }
}

/// In ordered entries a name has one place only.
pub proof fn lemma_ordered_names_differ<T>(entries: Seq<(Seq<char>, T)>, i: int, j: int)
    requires
        ordered(entries),
        0 <= i < entries.len(),
        0 <= j < entries.len(),
        entries[i].0 == entries[j].0,
    ensures
        i == j,
{
    lemma_text_lt_irreflexive(entries[i].0);
}

/// Ordered entries are determined by the map they stand for: two ordered
/// lists with the same map are the same list.
pub proof fn lemma_ordered_entries_unique<T>(a: Seq<(Seq<char>, T)>, b: Seq<(Seq<char>, T)>)
    requires
        ordered(a),
        ordered(b),
        as_map(a) == as_map(b),
    ensures
        a == b,
    decreases a.len(),
{
    if a.len() == 0 {
        if b.len() > 0 {
            assert(has_name(b, b[0].0));
            assert(as_map(b).dom().contains(b[0].0));
            assert(as_map(a).dom().contains(b[0].0));
        }
        assert(a =~= b);
    } else if b.len() == 0 {
        assert(has_name(a, a[0].0));
        assert(as_map(a).dom().contains(a[0].0));
        assert(as_map(b).dom().contains(a[0].0));
    } else {
        // The last entries carry the greatest name of either list.
        let la = a.last();
        let lb = b.last();
        assert(has_name(a, la.0));
        assert(has_name(b, lb.0));
        assert(as_map(a).dom().contains(la.0));
        assert(as_map(b).dom().contains(lb.0));
        assert(as_map(b).dom().contains(la.0));
        assert(as_map(a).dom().contains(lb.0));
        let ib = place_of(b, la.0);
        let ia = place_of(a, lb.0);
        lemma_text_lt_total(la.0, lb.0);
        if text_lt(la.0, lb.0) {
            if ia < a.len() - 1 {
                lemma_text_lt_asymmetric(la.0, lb.0);
            } else {
                lemma_text_lt_irreflexive(la.0);
            }
        }
        if text_lt(lb.0, la.0) {
            if ib < b.len() - 1 {
                lemma_text_lt_asymmetric(lb.0, la.0);
            } else {
                lemma_text_lt_irreflexive(lb.0);
            }
        }
        assert(la.0 == lb.0);
        lemma_ordered_names_differ(a, place_of(a, la.0), a.len() - 1);
        lemma_ordered_names_differ(b, place_of(b, la.0), b.len() - 1);
        assert(as_map(a)[la.0] == la.1);
        assert(as_map(b)[la.0] == lb.1);
        assert(la == lb);
        let a0 = a.drop_last();
        let b0 = b.drop_last();
        assert forall|name: Seq<char>| has_name(a0, name) == has_name(b0, name) by {
            lemma_drop_last_names(a, name);
            lemma_drop_last_names(b, name);
            assert(as_map(a).dom().contains(name) == has_name(a, name));
            assert(as_map(b).dom().contains(name) == has_name(b, name));
        }
        assert forall|name: Seq<char>| has_name(a0, name) implies a0[place_of(a0, name)].1
            == b0[place_of(b0, name)].1 by {
            lemma_drop_last_names(a, name);
            lemma_drop_last_names(b, name);
            assert(has_name(b0, name));
            assert(a[place_of(a0, name)].0 == name);
            assert(b[place_of(b0, name)].0 == name);
            lemma_ordered_names_differ(a, place_of(a, name), place_of(a0, name));
            lemma_ordered_names_differ(b, place_of(b, name), place_of(b0, name));
            assert(as_map(a).dom().contains(name));
            assert(as_map(a)[name] == a[place_of(a, name)].1);
            assert(as_map(b)[name] == b[place_of(b, name)].1);
        }
        assert(as_map(a0) =~= as_map(b0));
        lemma_ordered_entries_unique(a0, b0);
        assert(a =~= a0.push(la));
        assert(b =~= b0.push(lb));
    }
}

/// Without their last entry, ordered entries have the names they had but
/// the last one.
proof fn lemma_drop_last_names<T>(entries: Seq<(Seq<char>, T)>, name: Seq<char>)
    requires
        ordered(entries),
        entries.len() > 0,
    ensures
        has_name(entries.drop_last(), name) == (has_name(entries, name) && name
            != entries.last().0),
        ordered(entries.drop_last()),
{
    let rest = entries.drop_last();
    if has_name(rest, name) {
        let i = place_of(rest, name);
        assert(entries[i].0 == name);
        lemma_text_lt_irreflexive(name);
    }
    if has_name(entries, name) && name != entries.last().0 {
        let i = place_of(entries, name);
        assert(rest[i].0 == name);
    }
}

impl<T: Clone> Clone for NameMap<T> {
    /// A map of the same names, with a copy of each value.
    fn clone(&self) -> (map: Self)
        ensures
            map.entries().len() == self.entries().len(),
            forall|i: int|
                0 <= i < self.entries().len() ==> {
                    &&& (#[trigger] map.entries()[i]).0 == self.entries()[i].0
                    &&& cloned(self.entries()[i].1, map.entries()[i].1)
                },
    {
        proof {
            use_type_invariant(self);
        }
        let mut entries: Vec<(String, T)> = Vec::new();
        let mut i: usize = 0;
        while i < self.entries.len()
            invariant
                i <= self.entries@.len(),
                entries@.len() == i,
                forall|j: int|
                    0 <= j < i ==> {
                        &&& (#[trigger] entries@[j]).0@ == self.entries@[j].0@
                        &&& cloned(self.entries@[j].1, entries@[j].1)
                    },
            decreases self.entries@.len() - i,
        {
            let name = self.entries[i].0.clone();
            let value = self.entries[i].1.clone();
            entries.push((name, value));
            i = i + 1;
        }
        proof {
            assert forall|a: int, b: int| 0 <= a < b < named(entries@).len() implies text_lt(
                named(entries@)[a].0,
                named(entries@)[b].0,
            ) by {
                assert(named(entries@)[a].0 == named(self.entries@)[a].0);
                assert(named(entries@)[b].0 == named(self.entries@)[b].0);
            }
        }
        NameMap { entries }
    }
}

impl<T> NameMap<T> {
    #[verifier::type_invariant]
    spec fn in_order(self) -> bool {
        ordered(named(self.entries@))
    }

    /// The entries, in the order of their names.
    pub closed spec fn entries(self) -> Seq<(Seq<char>, T)> {
        named(self.entries@)
    }

    /// A map without entries.
    pub fn new() -> (map: Self)
        ensures
            map.entries().len() == 0,
    {
        NameMap { entries: Vec::new() }
    }

    /// The number of entries.
    pub fn len(&self) -> (n: usize)
        ensures
            n == self.entries().len(),
            ordered(self.entries()),
    {
        proof {
            use_type_invariant(self);
        }
        self.entries.len()
    }

    /// The name of the entry at a place.
    pub fn name_at(&self, i: usize) -> (name: &str)
        requires
            i < self.entries().len(),
        ensures
            name@ == self.entries()[i as int].0,
    {
        self.entries[i].0.as_str()
    }

    /// The value of the entry at a place.
    pub fn value_at(&self, i: usize) -> (value: &T)
        requires
            i < self.entries().len(),
        ensures
            *value == self.entries()[i as int].1,
    {
        &self.entries[i].1
    }

    /// The place of the first entry whose name does not come before `name`.
    fn rank(&self, name: &str) -> (k: usize)
        ensures
            k <= self.entries().len(),
            forall|i: int| 0 <= i < k ==> text_lt(#[trigger] self.entries()[i].0, name@),
            forall|i: int|
                k <= i < self.entries().len() ==> !text_lt(#[trigger] self.entries()[i].0, name@),
    {
        proof {
            use_type_invariant(self);
        }
        let mut k: usize = 0;
        while k < self.entries.len() && precedes(self.entries[k].0.as_str(), name)
            invariant
                k <= self.entries@.len(),
                forall|i: int| 0 <= i < k ==> text_lt(#[trigger] self.entries()[i].0, name@),
            decreases self.entries@.len() - k,
        {
            k = k + 1;
        }
        assert forall|i: int| k <= i < self.entries().len() implies !text_lt(
            #[trigger] self.entries()[i].0,
            name@,
        ) by {
            if i > k && text_lt(self.entries()[i].0, name@) {
                lemma_text_lt_transitive(self.entries()[k as int].0, self.entries()[i].0, name@);
            }
        }
        k
    }

    /// The value under a name, if there is one.
    pub fn get(&self, name: &str) -> (value: Option<&T>)
        ensures
            match value {
                Some(v) => as_map(self.entries()).dom().contains(name@) && *v == as_map(
                    self.entries(),
                )[name@],
                None => !as_map(self.entries()).dom().contains(name@),
            },
    {
        proof {
            use_type_invariant(self);
        }
        let k = self.rank(name);
        if k < self.entries.len() && same_text(self.entries[k].0.as_str(), name) {
            proof {
                assert(self.entries()[k as int].0 == name@);
                lemma_ordered_names_differ(
                    self.entries(),
                    place_of(self.entries(), name@),
                    k as int,
                );
            }
            Some(&self.entries[k].1)
        } else {
            proof {
                if has_name(self.entries(), name@) {
                    let i = place_of(self.entries(), name@);
                    lemma_text_lt_irreflexive(name@);
                    if i > k {
                        lemma_text_lt_total(self.entries()[k as int].0, name@);
                    }
                }
            }
            None
        }
    }

    /// Puts a value under a name, in the place of the value that was there.
    pub fn insert(&mut self, name: String, value: T)
        ensures
            ordered(final(self).entries()),
            as_map(final(self).entries()) == as_map(old(self).entries()).insert(name@, value),
    {
        proof {
            use_type_invariant(&*self);
        }
        let k = self.rank(name.as_str());
        let ghost before = self.entries();
        let ghost at_k = k < self.entries.len() && before[k as int].0 == name@;
        let replace = k < self.entries.len() && same_text(
            self.entries[k].0.as_str(),
            name.as_str(),
        );
        let mut entries: Vec<(String, T)> = Vec::new();
        assert(ordered(named(entries@)));
        core::mem::swap(&mut self.entries, &mut entries);
        if replace {
            entries.set(k, (name, value));
        } else {
            entries.insert(k, (name, value));
        }
        proof {
            let after = named(entries@);
            let shift: int = if at_k {
                1
            } else {
                0
            };
            assert(after.len() == before.len() + 1 - shift);
            assert(after[k as int] == (name@, value));
            assert forall|i: int| 0 <= i < k implies after[i] == before[i] by {}
            assert forall|i: int| k < i < after.len() implies after[i] == before[i - 1 + shift] by {}
            assert forall|i: int| k + shift <= i < before.len() implies text_lt(
                name@,
                #[trigger] before[i].0,
            ) by {
                lemma_text_lt_total(name@, before[i].0);
                if before[i].0 == name@ {
                    lemma_ordered_names_differ(before, i, k as int);
                }
            }
            assert forall|i: int, j: int| 0 <= i < j < after.len() implies text_lt(
                after[i].0,
                after[j].0,
            ) by {
                if j < k {
                } else if j == k {
                } else if i == k {
                } else if i < k {
                    lemma_text_lt_transitive(after[i].0, name@, after[j].0);
                } else {
                }
            }
            assert forall|n: Seq<char>| has_name(after, n) == (n == name@ || has_name(
                before,
                n,
            )) by {
                if has_name(after, n) && n != name@ {
                    let i = place_of(after, n);
                    if i < k {
                        assert(before[i].0 == n);
                    } else {
                        assert(before[i - 1 + shift].0 == n);
                    }
                }
                if n == name@ {
                    assert(after[k as int].0 == n);
                }
                if has_name(before, n) && n != name@ {
                    let i = place_of(before, n);
                    if i < k {
                        assert(after[i].0 == n);
                    } else {
                        assert(after[i + 1 - shift].0 == n);
                    }
                }
            }
            assert forall|n: Seq<char>| has_name(after, n) implies after[place_of(after, n)].1 == (
            if n == name@ {
                value
            } else {
                before[place_of(before, n)].1
            }) by {
                let i = place_of(after, n);
                if n == name@ {
                    lemma_ordered_names_differ(after, i, k as int);
                } else {
                    let j = place_of(before, n);
                    let j2 = if j < k {
                        j
                    } else {
                        j + 1 - shift
                    };
                    assert(after[j2].0 == n);
                    lemma_ordered_names_differ(after, i, j2);
                }
            }
            assert(as_map(after) =~= as_map(before).insert(name@, value));
        }
        self.entries = entries;
    }
}

} // verus!
