//! Tables that are kept as lists of entries, and lists that are found by a name.
use vstd::prelude::*;

use crate::text::str_eq;

verus! {

/// The table that a list of entries forms, later entries replacing earlier ones.
pub open spec fn table<K, V>(entries: Seq<(K, V)>) -> Map<K, V>
    decreases entries.len(),
{
    if entries.len() == 0 {
        Map::empty()
    } else {
        table(entries.drop_last()).insert(entries.last().0, entries.last().1)
    }
}

/// No key occurs twice.
pub open spec fn distinct_keys<K, V>(entries: Seq<(K, V)>) -> bool {
    forall|i: int, j: int|
        0 <= i < j < entries.len() ==> (#[trigger] entries[i]).0 != (#[trigger] entries[j]).0
}

/// Whether some entry has the given key.
pub open spec fn has_key<K, V>(entries: Seq<(K, V)>, key: K) -> bool {
    exists|i: int| 0 <= i < entries.len() && (#[trigger] entries[i]).0 == key
}

/// A table of distinct entries holds each of them and nothing else.
pub proof fn lemma_table<K, V>(entries: Seq<(K, V)>)
    requires
        distinct_keys(entries),
    ensures
        forall|i: int|
            0 <= i < entries.len() ==> table(entries).contains_key((#[trigger] entries[i]).0)
                && table(entries)[entries[i].0] == entries[i].1,
        forall|key: K| #[trigger] table(entries).contains_key(key) ==> has_key(entries, key),
    decreases entries.len(),
{
    if entries.len() > 0 {
        let init = entries.drop_last();
        assert forall|i: int, j: int| 0 <= i < j < init.len() implies (#[trigger] init[i]).0 != (
        #[trigger] init[j]).0 by {
            assert(entries[i].0 != entries[j].0);
        }
        lemma_table(init);
        assert forall|i: int| 0 <= i < entries.len() implies table(entries).contains_key(
            (#[trigger] entries[i]).0,
        ) && table(entries)[entries[i].0] == entries[i].1 by {
            if i < init.len() {
                assert(init[i] == entries[i]);
                assert(entries[i].0 != entries[init.len() as int].0);
            }
        }
        assert forall|key: K| #[trigger] table(entries).contains_key(key) implies has_key(
            entries,
            key,
        ) by {
            if key == entries.last().0 {
                assert(entries[entries.len() - 1].0 == key);
            } else {
                assert(table(init).contains_key(key));
                let i = choose|i: int| 0 <= i < init.len() && (#[trigger] init[i]).0 == key;
                assert(entries[i].0 == key);
            }
        }
    }
}

/// What an entry with a new key adds.
pub proof fn lemma_table_push<K, V>(entries: Seq<(K, V)>, key: K, value: V)
    requires
        distinct_keys(entries),
        !has_key(entries, key),
    ensures
        distinct_keys(entries.push((key, value))),
        table(entries.push((key, value))) == table(entries).insert(key, value),
{
    let after = entries.push((key, value));
    assert forall|i: int, j: int| 0 <= i < j < after.len() implies (#[trigger] after[i]).0 != (
    #[trigger] after[j]).0 by {
        if j < entries.len() {
            assert(entries[i].0 != entries[j].0);
        } else {
            assert(entries[i].0 != key);
        }
    }
    assert(after.drop_last() =~= entries);
}

/// What another value for a key changes.
pub proof fn lemma_table_update<K, V>(entries: Seq<(K, V)>, at: int, value: V)
    requires
        distinct_keys(entries),
        0 <= at < entries.len(),
    ensures
        distinct_keys(entries.update(at, (entries[at].0, value))),
        table(entries.update(at, (entries[at].0, value))) == table(entries).insert(
            entries[at].0,
            value,
        ),
{
    let key = entries[at].0;
    let after = entries.update(at, (key, value));
    assert forall|i: int, j: int| 0 <= i < j < after.len() implies (#[trigger] after[i]).0 != (
    #[trigger] after[j]).0 by {
        assert(entries[i].0 != entries[j].0);
    }
    lemma_table(entries);
    lemma_table(after);
    let one = table(after);
    let other = table(entries).insert(key, value);
    assert forall|k: K| #[trigger] one.contains_key(k) implies other.contains_key(k) && one[k]
        == other[k] by {
        let i = choose|i: int| 0 <= i < after.len() && (#[trigger] after[i]).0 == k;
        assert(one[after[i].0] == after[i].1);
        assert(entries[i].0 == k);
        if i < at {
            assert(entries[i].0 != entries[at].0);
        } else if at < i {
            assert(entries[at].0 != entries[i].0);
        }
    }
    assert forall|k: K| #[trigger] other.contains_key(k) implies one.contains_key(k) by {
        if k == key {
            assert(after[at].0 == key);
        } else {
            assert(table(entries).contains_key(k));
            let i = choose|i: int| 0 <= i < entries.len() && (#[trigger] entries[i]).0 == k;
            assert(after[i].0 == k);
        }
    }
    assert(one =~= other);
}

/// What taking out an entry leaves.
pub proof fn lemma_table_remove<K, V>(entries: Seq<(K, V)>, at: int)
    requires
        distinct_keys(entries),
        0 <= at < entries.len(),
    ensures
        distinct_keys(entries.remove(at)),
        table(entries.remove(at)) == table(entries).remove(entries[at].0),
{
    let key = entries[at].0;
    let after = entries.remove(at);
    assert forall|i: int, j: int| 0 <= i < j < after.len() implies (#[trigger] after[i]).0 != (
    #[trigger] after[j]).0 by {
        let a = if i < at { i } else { i + 1 };
        let b = if j < at { j } else { j + 1 };
        assert(entries[a].0 != entries[b].0);
    }
    lemma_table(entries);
    lemma_table(after);
    let one = table(after);
    let other = table(entries).remove(key);
    assert forall|k: K| #[trigger] one.contains_key(k) implies other.contains_key(k) && one[k]
        == other[k] by {
        let i = choose|i: int| 0 <= i < after.len() && (#[trigger] after[i]).0 == k;
        assert(one[after[i].0] == after[i].1);
        let a = if i < at { i } else { i + 1 };
        assert(entries[a] == after[i]);
        if a < at {
            assert(entries[a].0 != entries[at].0);
        } else {
            assert(entries[at].0 != entries[a].0);
        }
    }
    assert forall|k: K| #[trigger] other.contains_key(k) implies one.contains_key(k) by {
        assert(table(entries).contains_key(k));
        let i = choose|i: int| 0 <= i < entries.len() && (#[trigger] entries[i]).0 == k;
        let b = if i < at { i } else { i - 1 };
        assert(after[b] == entries[i]);
        assert(after[b].0 == k);
    }
    assert(one =~= other);
}

/// Lists that are found by a name, none of them empty.
#[derive(Debug)]
pub struct Lists<T> {
    entries: Vec<(&'static str, Vec<T>)>,
}

/// The lists with their names as characters.
pub open spec fn named_lists<T>(entries: Seq<(&'static str, Vec<T>)>) -> Seq<(Seq<char>, Seq<T>)> {
    entries.map_values(|entry: (&'static str, Vec<T>)| (entry.0@, entry.1@))
}

/// The list with the given name, an empty one where there is none.
pub open spec fn list_in<T>(lists: Map<Seq<char>, Seq<T>>, name: Seq<char>) -> Seq<T> {
    if lists.contains_key(name) {
        lists[name]
    } else {
        Seq::empty()
    }
}

/// Lists without their names: each of them once, in any order.
pub open spec fn holds_each<T>(lists: Map<Seq<char>, Seq<T>>, groups: Seq<Seq<T>>) -> bool {
    exists|names: Seq<Seq<char>>| #[trigger] names_each(lists, groups, names)
}

/// The names belong to the groups, one by one, and to every list there is.
pub open spec fn names_each<T>(
    lists: Map<Seq<char>, Seq<T>>,
    groups: Seq<Seq<T>>,
    names: Seq<Seq<char>>,
) -> bool {
    &&& names.len() == groups.len()
    &&& names.no_duplicates()
    &&& forall|name: Seq<char>| #[trigger] lists.contains_key(name) <==> names.contains(name)
    &&& forall|i: int| 0 <= i < names.len() ==> lists[#[trigger] names[i]] == groups[i]
}

/// The values of slices.
pub open spec fn slice_views<T>(slices: Seq<&[T]>) -> Seq<Seq<T>> {
    slices.map_values(|slice: &[T]| slice@)
}

impl<T> View for Lists<T> {
    type V = Map<Seq<char>, Seq<T>>;

    closed spec fn view(&self) -> Map<Seq<char>, Seq<T>> {
        table(named_lists(self.entries@))
    }
}

impl<T> Lists<T> {
    #[verifier::type_invariant]
    spec fn checked(self) -> bool {
        &&& distinct_keys(named_lists(self.entries@))
        &&& forall|i: int| 0 <= i < self.entries@.len() ==> (#[trigger] self.entries@[i]).1@.len() > 0
    }

    pub fn new() -> (lists: Self)
        ensures
            lists@ == Map::<Seq<char>, Seq<T>>::empty(),
    {
        let lists = Lists { entries: Vec::new() };
        assert(named_lists(lists.entries@) =~= seq![]);
        lists
    }

    fn find(&self, name: &str) -> (at: Option<usize>)
        ensures
            match at {
                Some(at) => at < self.entries@.len() && self.entries@[at as int].0@ == name@,
                None => !has_key(named_lists(self.entries@), name@),
            },
    {
        let mut i: usize = 0;
        while i < self.entries.len()
            invariant
                i <= self.entries@.len(),
                forall|k: int| 0 <= k < i ==> (#[trigger] named_lists(self.entries@)[k]).0 != name@,
            decreases self.entries@.len() - i,
        {
            if str_eq(self.entries[i].0, name) {
                return Some(i);
            }
            i += 1;
        }
        None
    }

    /// The list with the given name.
    pub fn get(&self, name: &str) -> (list: Option<&Vec<T>>)
        ensures
            match list {
                Some(list) => self@.contains_key(name@) && self@[name@] == list@ && list@.len() > 0,
                None => !self@.contains_key(name@),
            },
    {
        proof {
            use_type_invariant(self);
            lemma_table(named_lists(self.entries@));
        }
        match self.find(name) {
            Some(at) => {
                assert(named_lists(self.entries@)[at as int].0 == name@);
                Some(&self.entries[at].1)
            },
            None => None,
        }
    }

    /// All lists.
    pub fn groups(&self) -> (groups: Vec<&[T]>)
        ensures
            holds_each(self@, slice_views(groups@)),
    {
        proof {
            use_type_invariant(self);
        }
        let mut groups: Vec<&[T]> = Vec::new();
        let ghost named = named_lists(self.entries@);
        let mut i: usize = 0;
        while i < self.entries.len()
            invariant
                i <= self.entries@.len(),
                named == named_lists(self.entries@),
                groups@.len() == i,
                forall|k: int| 0 <= k < i ==> (#[trigger] groups@[k])@ == named[k].1,
            decreases self.entries@.len() - i,
        {
            groups.push(self.entries[i].1.as_slice());
            i += 1;
        }
        proof {
            lemma_table(named);
            let names = named.map_values(|entry: (Seq<char>, Seq<T>)| entry.0);
            assert forall|a: int, b: int| 0 <= a < names.len() && 0 <= b < names.len() && a
                != b implies names[a] != names[b] by {
                if a < b {
                    assert(named[a].0 != named[b].0);
                } else {
                    assert(named[b].0 != named[a].0);
                }
            }
            assert forall|name: Seq<char>| #[trigger] self@.contains_key(name)
                <==> names.contains(name) by {
                if self@.contains_key(name) {
                    let at = choose|at: int|
                        0 <= at < named.len() && (#[trigger] named[at]).0 == name;
                    assert(names[at] == name);
                }
                if names.contains(name) {
                    let at = choose|at: int| 0 <= at < names.len() && names[at] == name;
                    assert(named[at].0 == name);
                }
            }
            assert forall|k: int| 0 <= k < names.len() implies self@[#[trigger] names[k]]
                == slice_views(groups@)[k] by {
                assert(named[k].0 == names[k]);
            }
            assert(names_each(self@, slice_views(groups@), names));
        }
        groups
    }

    /// Adds a value at the end of the list with the given name.
    pub fn push(&mut self, name: &'static str, value: T)
        ensures
            final(self)@ == old(self)@.insert(name@, list_in(old(self)@, name@).push(value)),
    {
        proof {
            use_type_invariant(&*self);
            lemma_table(named_lists(self.entries@));
        }
        let found = self.find(name);
        let ghost before = named_lists(self.entries@);
        let mut entries: Vec<(&'static str, Vec<T>)> = Vec::new();
        core::mem::swap(&mut self.entries, &mut entries);
        match found {
            Some(at) => {
                assert(before[at as int].0 == name@);
                let ghost start = entries@;
                let (same, mut values) = entries.remove(at);
                let ghost known = values@;
                values.push(value);
                entries.insert(at, (same, values));
                proof {
                    assert(entries@ =~= start.update(at as int, (same, values)));
                    assert(named_lists(entries@) =~= before.update(
                        at as int,
                        (name@, known.push(value)),
                    ));
                    lemma_table_update(before, at as int, known.push(value));
                }
            },
            None => {
                let mut values: Vec<T> = Vec::new();
                values.push(value);
                entries.push((name, values));
                proof {
                    assert(values@ =~= Seq::<T>::empty().push(value));
                    assert(named_lists(entries@) =~= before.push((name@, values@)));
                    lemma_table_push(before, name@, values@);
                }
            },
        }
        *self = Lists { entries };
    }

    /// Puts a list of one value in place of the list with the given name.
    pub fn replace(&mut self, name: &'static str, value: T)
        ensures
            final(self)@ == old(self)@.insert(name@, seq![value]),
    {
        proof {
            use_type_invariant(&*self);
            lemma_table(named_lists(self.entries@));
        }
        let found = self.find(name);
        let ghost before = named_lists(self.entries@);
        let mut entries: Vec<(&'static str, Vec<T>)> = Vec::new();
        core::mem::swap(&mut self.entries, &mut entries);
        let mut values: Vec<T> = Vec::new();
        values.push(value);
        assert(values@ =~= seq![value]);
        match found {
            Some(at) => {
                assert(before[at as int].0 == name@);
                let ghost start = entries@;
                entries.set(at, (name, values));
                proof {
                    assert(named_lists(entries@) =~= before.update(at as int, (name@, values@)));
                    lemma_table_update(before, at as int, values@);
                }
            },
            None => {
                entries.push((name, values));
                proof {
                    assert(named_lists(entries@) =~= before.push((name@, values@)));
                    lemma_table_push(before, name@, values@);
                }
            },
        }
        *self = Lists { entries };
    }
}

} // verus!
