//! Searching a sequence for the first element with a property, and lists of
//! entries that are found by their key.

use vstd::prelude::*;

verus! {

/// The index of the first element of `s` at or after `start` that satisfies
/// `p`, or `s.len()` when there is none.
pub open spec fn position<T>(s: Seq<T>, p: spec_fn(T) -> bool, start: int) -> int
    decreases s.len() - start,
{
    if start < 0 || start >= s.len() {
        s.len() as int
    } else if p(s[start]) {
        start
    } else {
        position(s, p, start + 1)
    }
}

/// Whether some element of `s` satisfies `p`.
pub open spec fn any<T>(s: Seq<T>, p: spec_fn(T) -> bool) -> bool {
    position(s, p, 0) < s.len()
}

/// `position` returns the first match: nothing before it matches, and it
/// matches itself unless it is the length.
pub proof fn lemma_position<T>(s: Seq<T>, p: spec_fn(T) -> bool, start: int)
    requires
        0 <= start <= s.len(),
    ensures
        start <= position(s, p, start) <= s.len(),
        position(s, p, start) < s.len() ==> p(s[position(s, p, start)]),
        forall|j: int| start <= j < position(s, p, start) ==> !p(#[trigger] s[j]),
    decreases s.len() - start,
{
    if start < s.len() && !p(s[start]) {
        lemma_position(s, p, start + 1);
    }
}

/// An index with the property that nothing between `start` and it has is the
/// position.
pub proof fn lemma_position_is<T>(s: Seq<T>, p: spec_fn(T) -> bool, start: int, at: int)
    requires
        0 <= start <= at <= s.len(),
        at < s.len() ==> p(s[at]),
        forall|j: int| start <= j < at ==> !p(#[trigger] s[j]),
    ensures
        position(s, p, start) == at,
    decreases at - start,
{
    if start < at {
        assert(!p(s[start]));
        lemma_position_is(s, p, start + 1, at);
    }
}

/// Some element satisfies `p` exactly when `any` says so.
pub proof fn lemma_any<T>(s: Seq<T>, p: spec_fn(T) -> bool)
    ensures
        any(s, p) <==> exists|j: int| 0 <= j < s.len() && p(#[trigger] s[j]),
{
    lemma_position(s, p, 0);
    if any(s, p) {
        assert(p(s[position(s, p, 0)]));
    }
}

/// An element that satisfies `p` shows that some element does.
pub proof fn lemma_any_at<T>(s: Seq<T>, p: spec_fn(T) -> bool, j: int)
    requires
        0 <= j < s.len(),
        p(s[j]),
    ensures
        any(s, p),
{
    lemma_any(s, p);
}

/// Where some element satisfies `p`, the first such element is one.
pub proof fn lemma_any_first<T>(s: Seq<T>, p: spec_fn(T) -> bool) -> (j: int)
    requires
        any(s, p),
    ensures
        j == position(s, p, 0),
        0 <= j < s.len(),
        p(s[j]),
{
    lemma_position(s, p, 0);
    position(s, p, 0)
}

/// Where no element satisfies `p`, the element at `j` does not.
pub proof fn lemma_none<T>(s: Seq<T>, p: spec_fn(T) -> bool, j: int)
    requires
        !any(s, p),
        0 <= j < s.len(),
    ensures
        !p(s[j]),
{
    lemma_any(s, p);
}

/// An element of two sequences, one after the other, stands in the first or
/// in the second.
pub proof fn lemma_any_add<T>(a: Seq<T>, b: Seq<T>, p: spec_fn(T) -> bool)
    ensures
        any(a + b, p) <==> any(a, p) || any(b, p),
{
    lemma_any(a, p);
    lemma_any(b, p);
    lemma_any(a + b, p);
    if any(a, p) {
        let j = lemma_any_first(a, p);
        assert((a + b)[j] == a[j]);
    }
    if any(b, p) {
        let j = lemma_any_first(b, p);
        assert((a + b)[a.len() + j] == b[j]);
    }
    if any(a + b, p) {
        let j = lemma_any_first(a + b, p);
        if j < a.len() {
            assert(a[j] == (a + b)[j]);
        } else {
            assert(b[j - a.len()] == (a + b)[j]);
        }
    }
}

/// An element of a sequence stands at the front or behind it.
pub proof fn lemma_any_skip<T>(s: Seq<T>, p: spec_fn(T) -> bool)
    requires
        s.len() > 0,
    ensures
        any(s, p) <==> p(s[0]) || any(s.skip(1), p),
{
    lemma_any(s, p);
    lemma_any(s.skip(1), p);
    if any(s.skip(1), p) {
        let j = lemma_any_first(s.skip(1), p);
        assert(s[j + 1] == s.skip(1)[j]);
    }
    if any(s, p) && !p(s[0]) {
        let j = lemma_any_first(s, p);
        assert(s.skip(1)[j - 1] == s[j]);
    }
}

/// The entries with this key.
pub open spec fn keyed<T>(key: Seq<char>) -> spec_fn((String, T)) -> bool {
    |e: (String, T)| e.0@ == key
}

/// Whether the keys of a list of entries are pairwise different.
pub open spec fn distinct_keys<T>(entries: Seq<(String, T)>) -> bool {
    forall|i: int, j: int|
        #![trigger entries[i], entries[j]]
        0 <= i < j < entries.len() ==> entries[i].0@ != entries[j].0@
}

/// What a list of entries holds: under each key the value of the first
/// entry with that key.
pub open spec fn entries_map<T>(entries: Seq<(String, T)>) -> Map<Seq<char>, T> {
    Map::new(
        |key: Seq<char>| any(entries, keyed::<T>(key)),
        |key: Seq<char>| entries[position(entries, keyed::<T>(key), 0)].1,
    )
}

/// In a list with pairwise different keys, the entry with a key is the first
/// entry with that key.
pub proof fn lemma_found<T>(entries: Seq<(String, T)>, at: int)
    requires
        distinct_keys(entries),
        0 <= at < entries.len(),
    ensures
        position(entries, keyed::<T>(entries[at].0@), 0) == at,
        any(entries, keyed::<T>(entries[at].0@)),
{
    let key = entries[at].0@;
    assert forall|j: int| 0 <= j < at implies !keyed::<T>(key)(#[trigger] entries[j]) by {
        assert(entries[j].0@ != entries[at].0@);
    }
    lemma_position_is(entries, keyed::<T>(key), 0, at);
}

} // verus!
