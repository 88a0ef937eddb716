//! A map from names to values, kept in ascending order of the names.

use vstd::prelude::*;

use crate::text::{compare, precedes, precedes_asymmetric, precedes_transitive, Order};

verus! {

/// The names of the entries ascend strictly, so no name occurs twice.
pub open spec fn ascending<V>(entries: Seq<(String, V)>) -> bool {
    forall|i: int, j: int|
        0 <= i < j < entries.len() ==> precedes(#[trigger] entries[i].0@, #[trigger] entries[j].0@)
}

/// Whether some entry has the name `key`.
pub open spec fn has_name<V>(entries: Seq<(String, V)>, key: Seq<char>) -> bool {
    exists|i: int| 0 <= i < entries.len() && #[trigger] entries[i].0@ == key
}

/// The position of the entry with the name `key`.
pub open spec fn position<V>(entries: Seq<(String, V)>, key: Seq<char>) -> int {
    choose|i: int| 0 <= i < entries.len() && #[trigger] entries[i].0@ == key
}

/// The value under each name.
pub open spec fn mapping<V>(entries: Seq<(String, V)>) -> Map<Seq<char>, V> {
    Map::new(
        |key: Seq<char>| has_name(entries, key),
        |key: Seq<char>| entries[position(entries, key)].1,
    )
}

/// Every entry is what stands under its name.
pub proof fn entry_is_value<V>(entries: Seq<(String, V)>, i: int)
    requires
        ascending(entries),
        0 <= i < entries.len(),
    ensures
        mapping(entries).dom().contains(entries[i].0@),
        mapping(entries)[entries[i].0@] == entries[i].1,
        position(entries, entries[i].0@) == i,
{
    let key = entries[i].0@;
    let p = position(entries, key);
    assert(entries[p].0@ == key);
    if p < i {
        precedes_asymmetric(entries[p].0@, key);
    } else if i < p {
        precedes_asymmetric(key, entries[p].0@);
    }
}

/// Looks up the value under `key`.
pub fn find<'a, V>(entries: &'a Vec<(String, V)>, key: &str) -> (found: Option<&'a V>)
    requires
        ascending(entries@),
    ensures
        found matches Some(v) ==> mapping(entries@).dom().contains(key@) && *v == mapping(
            entries@,
        )[key@],
        found is None <==> !mapping(entries@).dom().contains(key@),
        found matches Some(v) ==> exists|i: int|
            0 <= i < entries@.len() && (#[trigger] entries@[i]).0@ == key@ && entries@[i].1 == *v,
        found is None <==> forall|i: int| 0 <= i < entries@.len() ==> (#[trigger] entries@[i]).0@
            != key@,
{
    let mut i: usize = 0;
    while i < entries.len()
        invariant
            ascending(entries@),
            i <= entries@.len(),
            forall|j: int| 0 <= j < i ==> #[trigger] entries@[j].0@ != key@,
        decreases entries@.len() - i,
    {
        match compare(entries[i].0.as_str(), key) {
            Order::Same => {
                proof {
                    entry_is_value(entries@, i as int);
                }
                return Some(&entries[i].1);
            },
            _ => {},
        }
        i += 1;
    }
    None
}

/// A map whose entries stand in strictly ascending order of their names.
#[derive(Debug, Clone, PartialEq, Eq)]
pub struct NameMap<V> {
    pub entries: Vec<(String, V)>,
}

impl<V> NameMap<V> {
    /// The names ascend strictly, so no name occurs twice.
    pub open spec fn wf(&self) -> bool {
        ascending(self.entries@)
    }

    /// The value under each name.
    pub open spec fn view(&self) -> Map<Seq<char>, V> {
        mapping(self.entries@)
    }

    /// The empty map.
    pub fn new() -> (map: Self)
        ensures
            map.wf(),
            map.entries@.len() == 0,
            map@ == Map::<Seq<char>, V>::empty(),
    {
        let map = NameMap { entries: Vec::new() };
        assert(map@ =~= Map::<Seq<char>, V>::empty());
        map
    }

    /// The number of names.
    pub fn len(&self) -> (n: usize)
        ensures
            n == self.entries@.len(),
    {
        self.entries.len()
    }

    /// Whether there is no entry.
    pub fn is_empty(&self) -> (empty: bool)
        ensures
            empty == (self.entries@.len() == 0),
    {
        self.entries.len() == 0
    }

    /// Looks up the value under `key`.
    pub fn get(&self, key: &str) -> (found: Option<&V>)
        requires
            self.wf(),
        ensures
            found matches Some(v) ==> self@.dom().contains(key@) && *v == self@[key@],
            found is None <==> !self@.dom().contains(key@),
            found matches Some(v) ==> exists|i: int|
                0 <= i < self.entries@.len() && (#[trigger] self.entries@[i]).0@ == key@
                    && self.entries@[i].1 == *v,
            found is None <==> forall|i: int|
                0 <= i < self.entries@.len() ==> (#[trigger] self.entries@[i]).0@ != key@,
    {
        find(&self.entries, key)
    }

    /// Whether there is a value under `key`.
    pub fn contains_key(&self, key: &str) -> (found: bool)
        requires
            self.wf(),
        ensures
            found == self@.dom().contains(key@),
            found == exists|i: int|
                0 <= i < self.entries@.len() && (#[trigger] self.entries@[i]).0@ == key@,
    {
        self.get(key).is_some()
    }

    /// Puts `value` under `key`, in place of what was there.
    pub fn insert(&mut self, key: String, value: V)
        requires
            old(self).wf(),
        ensures
            final(self).wf(),
            final(self)@ == old(self)@.insert(key@, value),
    {
        let mut i: usize = 0;
        let mut here: bool = false;
        let mut done: bool = false;
        while i < self.entries.len() && !done
            invariant
                self.wf(),
                *self == *old(self),
                i <= self.entries@.len(),
                forall|j: int| 0 <= j < i ==> precedes(#[trigger] self.entries@[j].0@, key@),
                done ==> i < self.entries@.len(),
                done && here ==> self.entries@[i as int].0@ == key@,
                done && !here ==> precedes(key@, self.entries@[i as int].0@),
                !done ==> !here,
            decreases self.entries@.len() - i, (if done { 0int } else { 1int }),
        {
            match compare(self.entries[i].0.as_str(), key.as_str()) {
                Order::Before => {
                    i += 1;
                },
                Order::Same => {
                    here = true;
                    done = true;
                },
                Order::After => {
                    done = true;
                },
            }
        }
        let ghost before = self.entries@;
        let ghost k = key@;
        if here {
            self.entries.remove(i);
            self.entries.insert(i, (key, value));
            assert(self.entries@ =~= before.update(i as int, (key, value)));
        } else {
            self.entries.insert(i, (key, value));
        }
        proof {
            let after = self.entries@;
            let tail = if here { i + 1 } else { i as int };
            assert forall|j: int| tail <= j < before.len() implies precedes(
                k,
                #[trigger] before[j].0@,
            ) by {
                if here {
                    assert(precedes(before[i as int].0@, before[j].0@));
                } else if j > i {
                    precedes_transitive(k, before[i as int].0@, before[j].0@);
                }
            }
            assert(self.wf());
            assert forall|q: Seq<char>| has_name(after, q) <==> old(self)@.insert(k, value).dom().contains(q) by {
                if has_name(before, q) {
                    let p = position(before, q);
                    let p2 = if p < i || here { p } else { p + 1 };
                    assert(self.entries@[p2].0@ == q);
                }
                if has_name(after, q) && q != k {
                    let p = position(after, q);
                    let p2 = if p < i || here { p } else { p - 1 };
                    assert(before[p2].0@ == q);
                }
                assert(self.entries@[i as int].0@ == k);
            }
            assert forall|q: Seq<char>| has_name(after, q) implies self@[q] == old(self)@.insert(k, value)[q] by {
                let p = position(after, q);
                assert(self.entries@[p].0@ == q);
                if q == k {
                    entry_is_value(after, i as int);
                } else {
                    let p2 = if p < i || here { p } else { p - 1 };
                    entry_is_value(before, p2);
                }
            }
            assert(self@ =~= old(self)@.insert(k, value));
        }
    }
}

/// What stands under a name is an entry of that name, and a name without entry stands for
/// nothing.
pub proof fn value_is_entry<V>(entries: Seq<(String, V)>, key: Seq<char>)
    ensures
        mapping(entries).dom().contains(key) <==> exists|i: int|
            0 <= i < entries.len() && (#[trigger] entries[i]).0@ == key,
        mapping(entries).dom().contains(key) ==> exists|i: int|
            0 <= i < entries.len() && (#[trigger] entries[i]).0@ == key && entries[i].1 == mapping(
                entries,
            )[key],
{
    if mapping(entries).dom().contains(key) {
        let p = position(entries, key);
        assert(entries[p].0@ == key);
    }
    if exists|i: int| 0 <= i < entries.len() && (#[trigger] entries[i]).0@ == key {
        let i = choose|i: int| 0 <= i < entries.len() && (#[trigger] entries[i]).0@ == key;
        assert(entries[i].0@ == key);
        assert(has_name(entries, key));
    }
}

/// No name occurs twice among ascending entries, and every name comes before the later ones.
pub proof fn ascending_names_differ<V>(entries: Seq<(String, V)>, i: int, j: int)
    requires
        ascending(entries),
        0 <= i < j < entries.len(),
    ensures
        precedes(entries[i].0@, entries[j].0@),
        entries[i].0@ != entries[j].0@,
{
    let (a, b) = (entries[i], entries[j]);
    assert(precedes(a.0@, b.0@));
    precedes_asymmetric(a.0@, b.0@);
}

/// After an insertion, the value is an entry under its name, the entries of other names are
/// those from before, and no name but that one is new.
pub proof fn insertion_changes_one_name<V>(
    before: NameMap<V>,
    after: NameMap<V>,
    key: Seq<char>,
    value: V,
)
    requires
        before.wf(),
        after.wf(),
        after@ == before@.insert(key, value),
    ensures
        exists|i: int|
            0 <= i < after.entries@.len() && (#[trigger] after.entries@[i]).0@ == key
                && after.entries@[i].1 == value,
        forall|i: int|
            0 <= i < before.entries@.len() && (#[trigger] before.entries@[i]).0@ != key
                ==> exists|j: int|
                0 <= j < after.entries@.len() && (#[trigger] after.entries@[j]).0@
                    == before.entries@[i].0@ && after.entries@[j].1 == before.entries@[i].1,
        forall|j: int|
            0 <= j < after.entries@.len() && (#[trigger] after.entries@[j]).0@ != key
                ==> exists|i: int|
                0 <= i < before.entries@.len() && (#[trigger] before.entries@[i]).0@
                    == after.entries@[j].0@ && after.entries@[j].1 == before.entries@[i].1,
{
    value_is_entry(after.entries@, key);
    assert forall|i: int|
        0 <= i < before.entries@.len() && (#[trigger] before.entries@[i]).0@ != key implies exists|
        j: int,
    |
        0 <= j < after.entries@.len() && (#[trigger] after.entries@[j]).0@ == before.entries@[i].0@
            && after.entries@[j].1 == before.entries@[i].1 by {
        entry_is_value(before.entries@, i);
        value_is_entry(after.entries@, before.entries@[i].0@);
    }
    assert forall|j: int|
        0 <= j < after.entries@.len() && (#[trigger] after.entries@[j]).0@ != key implies exists|
        i: int,
    |
        0 <= i < before.entries@.len() && (#[trigger] before.entries@[i]).0@ == after.entries@[j].0@
            && after.entries@[j].1 == before.entries@[i].1 by {
        entry_is_value(after.entries@, j);
        value_is_entry(before.entries@, after.entries@[j].0@);
    }
}

} // verus!
