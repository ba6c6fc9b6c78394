//! A small table keyed by context id or function name.

use crate::seqs::{
    any,
    distinct_keys,
    entries_map,
    keyed,
    lemma_any,
    lemma_any_at,
    lemma_found,
    lemma_none,
    lemma_position,
    lemma_position_is,
    position,
};
use vstd::prelude::*;

verus! {

/// A table from strings to values. No key occurs twice.
pub struct Table<T> {
    entries: Vec<(String, T)>,
}

impl<T> Table<T> {
    /// The table's invariant: no key occurs twice.
    pub closed spec fn wf(&self) -> bool {
        distinct_keys(self.entries@)
    }

    /// What the table holds.
    pub closed spec fn view(&self) -> Map<Seq<char>, T> {
        entries_map(self.entries@)
    }

    /// An empty table.
    pub fn new() -> (res: Table<T>)
        ensures
            res.wf(),
            res@ == Map::<Seq<char>, T>::empty(),
    {
        let res = Table { entries: Vec::new() };
        assert(res@ =~= Map::<Seq<char>, T>::empty()) by {
            assert forall|key: Seq<char>| !any(res.entries@, keyed::<T>(key)) by {
                lemma_any(res.entries@, keyed::<T>(key));
            }
        }
        res
    }

    /// Whether the table has an entry for `key`.
    pub fn contains_key(&self, key: &String) -> (res: bool)
        ensures
            res == self@.contains_key(key@),
    {
        self.find(key) < self.entries.len()
    }

    /// The value under `key`.
    pub fn get(&self, key: &String) -> (res: Option<&T>)
        ensures
            res == (if self@.contains_key(key@) {
                Some(&self@[key@])
            } else {
                None
            }),
    {
        let at = self.find(key);
        if at < self.entries.len() {
            Some(&self.entries[at].1)
        } else {
            None
        }
    }

    /// Puts `value` under `key`, in place of what was there.
    pub fn insert(&mut self, key: String, value: T)
        requires
            old(self).wf(),
        ensures
            final(self).wf(),
            final(self)@ == old(self)@.insert(key@, value),
    {
        let at = self.find(&key);
        let ghost before = self.entries@;
        let ghost name = key@;
        if at < self.entries.len() {
            self.entries.remove(at);
        }
        let ghost rest = self.entries@;
        self.entries.push((key, value));
        proof {
            let after = self.entries@;
            lemma_position(before, keyed::<T>(name), 0);
            assert forall|j: int| 0 <= j < rest.len() implies (#[trigger] rest[j]).0@ != name by {
                if at < before.len() {
                    let b = if j < at { j } else { j + 1 };
                    assert(rest[j] == before[b]);
                    if b < at {
                        assert(before[b].0@ != before[at as int].0@);
                    } else {
                        assert(before[at as int].0@ != before[b].0@);
                    }
                } else {
                    assert(!keyed::<T>(name)(before[j]));
                }
            }
            assert forall|i: int, j: int| 0 <= i < j < after.len() implies (
            #[trigger] after[i]).0@ != (#[trigger] after[j]).0@ by {
                if j < rest.len() {
                    if at < before.len() {
                        let a = if i < at { i } else { i + 1 };
                        let b = if j < at { j } else { j + 1 };
                        assert(before[a].0@ != before[b].0@);
                    } else {
                        assert(before[i].0@ != before[j].0@);
                    }
                } else {
                    assert(rest[i].0@ != name);
                }
            }
            assert forall|k: Seq<char>| #[trigger]
                self@.contains_key(k) == old(self)@.insert(name, value).contains_key(k) && (
                self@.contains_key(k) ==> self@[k] == old(self)@.insert(name, value)[k]) by {
                lemma_carried_over(before, rest, at as int, k);
                lemma_any(after, keyed::<T>(k));
                lemma_any(rest, keyed::<T>(k));
                if k == name {
                    lemma_position_is(after, keyed::<T>(k), 0, rest.len() as int);
                } else if any(rest, keyed::<T>(k)) {
                    lemma_position(rest, keyed::<T>(k), 0);
                    let a = position(rest, keyed::<T>(k), 0);
                    assert(after[a] == rest[a]);
                    assert forall|j: int| 0 <= j < a implies !keyed::<T>(k)(#[trigger] after[j]) by {
                        assert(after[j] == rest[j]);
                    }
                    lemma_position_is(after, keyed::<T>(k), 0, a);
                } else {
                    assert forall|j: int| 0 <= j < after.len() implies !keyed::<T>(k)(
                        #[trigger] after[j],
                    ) by {
                        if j < rest.len() {
                            assert(after[j] == rest[j]);
                            lemma_none(rest, keyed::<T>(k), j);
                        }
                    }
                }
            }
            assert(self@ =~= old(self)@.insert(name, value));
        }
    }

    /// Takes the entry under `key` out of the table.
    pub fn remove(&mut self, key: &String) -> (res: Option<T>)
        requires
            old(self).wf(),
        ensures
            final(self).wf(),
            final(self)@ == old(self)@.remove(key@),
            res == (if old(self)@.contains_key(key@) {
                Some(old(self)@[key@])
            } else {
                None
            }),
    {
        let at = self.find(key);
        let ghost before = self.entries@;
        if at < self.entries.len() {
            let entry = self.entries.remove(at);
            proof {
                let rest = self.entries@;
                assert forall|i: int, j: int| 0 <= i < j < rest.len() implies (
                #[trigger] rest[i]).0@ != (#[trigger] rest[j]).0@ by {
                    let a = if i < at { i } else { i + 1 };
                    let b = if j < at { j } else { j + 1 };
                    assert(before[a].0@ != before[b].0@);
                }
                lemma_position(before, keyed::<T>(key@), 0);
                assert forall|k: Seq<char>| #[trigger]
                    self@.contains_key(k) == old(self)@.remove(key@).contains_key(k) && (
                    self@.contains_key(k) ==> self@[k] == old(self)@.remove(key@)[k]) by {
                    lemma_carried_over(before, rest, at as int, k);
                }
                assert(self@ =~= old(self)@.remove(key@));
            }
            Some(entry.1)
        } else {
            assert(self@ =~= old(self)@.remove(key@));
            None
        }
    }

    /// The number of entries.
    pub fn len(&self) -> (res: usize)
        requires
            self.wf(),
        ensures
            res == self@.len(),
            self@.dom().finite(),
    {
        proof {
            lemma_size(self.entries@);
            assert(self@.dom() =~= keys_of(self.entries@));
        }
        self.entries.len()
    }

    /// The index of the entry under `key`.
    fn find(&self, key: &String) -> (res: usize)
        ensures
            res == position(self.entries@, keyed::<T>(key@), 0),
            res <= self.entries@.len(),
    {
        let mut i: usize = 0;
        while i < self.entries.len()
            invariant
                i <= self.entries.len(),
                position(self.entries@, keyed::<T>(key@), 0) == position(
                    self.entries@,
                    keyed::<T>(key@),
                    i as int,
                ),
            decreases self.entries.len() - i,
        {
            if self.entries[i].0 == *key {
                return i;
            }
            i += 1;
        }
        i
    }
}

/// The keys of a list of entries.
pub open spec fn keys_of<T>(entries: Seq<(String, T)>) -> Set<Seq<char>> {
    Set::new(|key: Seq<char>| any(entries, keyed::<T>(key)))
}

/// A list of entries with pairwise different keys has as many keys as
/// entries.
proof fn lemma_size<T>(entries: Seq<(String, T)>)
    requires
        distinct_keys(entries),
    ensures
        keys_of(entries).finite(),
        keys_of(entries).len() == entries.len(),
    decreases entries.len(),
{
    if entries.len() == 0 {
        assert(keys_of(entries) =~= Set::<Seq<char>>::empty()) by {
            assert forall|key: Seq<char>| !any(entries, keyed::<T>(key)) by {
                lemma_any(entries, keyed::<T>(key));
            }
        }
    } else {
        let front = entries.drop_last();
        let last = entries.last().0@;
        assert forall|i: int, j: int| 0 <= i < j < front.len() implies (#[trigger] front[i]).0@ != (
        #[trigger] front[j]).0@ by {
            assert(entries[i].0@ != entries[j].0@);
        }
        lemma_size(front);
        assert(keys_of(entries) =~= keys_of(front).insert(last)) by {
            assert forall|key: Seq<char>|
                any(entries, keyed::<T>(key)) == (key == last || any(front, keyed::<T>(key))) by {
                lemma_any(entries, keyed::<T>(key));
                lemma_any(front, keyed::<T>(key));
                if any(front, keyed::<T>(key)) {
                    lemma_position(front, keyed::<T>(key), 0);
                    let a = position(front, keyed::<T>(key), 0);
                    assert(entries[a] == front[a]);
                }
                if any(entries, keyed::<T>(key)) && key != last {
                    lemma_position(entries, keyed::<T>(key), 0);
                    let a = position(entries, keyed::<T>(key), 0);
                    assert(front[a] == entries[a]);
                }
                if key == last {
                    assert(keyed::<T>(key)(entries[entries.len() - 1]));
                }
            }
        }
        assert(!keys_of(front).contains(last)) by {
            lemma_any(front, keyed::<T>(last));
            assert forall|j: int| 0 <= j < front.len() implies !keyed::<T>(last)(
                #[trigger] front[j],
            ) by {
                assert(entries[j].0@ != entries[entries.len() - 1].0@);
            }
        }
    }
}

/// Taking the entry at `at` out of a list with pairwise different keys
/// leaves every other key with its value; with `at` the length of the list
/// nothing is taken out.
proof fn lemma_carried_over<T>(before: Seq<(String, T)>, rest: Seq<(String, T)>, at: int, key: Seq<
    char,
>)
    requires
        distinct_keys(before),
        0 <= at <= before.len(),
        rest == (if at < before.len() {
            before.remove(at)
        } else {
            before
        }),
    ensures
        any(rest, keyed::<T>(key)) <==> any(before, keyed::<T>(key)) && !(at < before.len()
            && before[at].0@ == key),
        any(rest, keyed::<T>(key)) ==> rest[position(rest, keyed::<T>(key), 0)] == before[position(
            before,
            keyed::<T>(key),
            0,
        )],
{
    if at < before.len() {
        lemma_found(before, at);
        if any(rest, keyed::<T>(key)) {
            lemma_position(rest, keyed::<T>(key), 0);
            let k = position(rest, keyed::<T>(key), 0);
            let b = if k < at { k } else { k + 1 };
            assert(rest[k] == before[b]);
            lemma_found(before, b);
            lemma_any_at(before, keyed::<T>(key), b);
        }
        if any(before, keyed::<T>(key)) && before[at].0@ != key {
            lemma_position(before, keyed::<T>(key), 0);
            let b = position(before, keyed::<T>(key), 0);
            let k = if b < at { b } else { b - 1 };
            assert(rest[k] == before[b]);
            lemma_any_at(rest, keyed::<T>(key), k);
        }
    }
}

} // verus!
