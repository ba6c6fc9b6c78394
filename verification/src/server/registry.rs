//! The function registry of the broker: who serves which function, and in
//! which order the handlers of one function are tried.
//!
//! The registry is one list of registrations. The registrations of one
//! function stand in it in the order in which they are tried: by rising
//! priority number (a lower number is tried first) and, among equal
//! priorities, in the order in which they were made.

use crate::rpc::ErrorKind;
use crate::seqs::{any, lemma_any, lemma_position, position};
use vstd::prelude::*;

verus! {

/// The identity of a connected peer.
pub type PeerId = u64;

/// One peer's offer to serve one function.
#[derive(Debug, PartialEq, Eq)]
pub struct Registration {
    pub name: String,
    pub peer: PeerId,
    pub priority: u16,
}

/// A registration as the contracts see it.
pub struct RegistrationView {
    pub name: Seq<char>,
    pub peer: PeerId,
    pub priority: u16,
}

impl View for Registration {
    type V = RegistrationView;

    open spec fn view(&self) -> RegistrationView {
        RegistrationView { name: self.name@, peer: self.peer, priority: self.priority }
    }
}

/// Registrations of the function `name`.
pub open spec fn named(name: Seq<char>) -> spec_fn(RegistrationView) -> bool {
    |r: RegistrationView| r.name == name
}

/// The registration of the function `name` by `peer`.
pub open spec fn named_by(name: Seq<char>, peer: PeerId) -> spec_fn(RegistrationView) -> bool {
    |r: RegistrationView| r.name == name && r.peer == peer
}

/// Registrations of the function `name` that are tried after one of the given
/// priority.
pub open spec fn named_behind(name: Seq<char>, priority: u16) -> spec_fn(RegistrationView) -> bool {
    |r: RegistrationView| r.name == name && r.priority > priority
}

/// Registrations that `peer` did not make.
pub open spec fn by_others(peer: PeerId) -> spec_fn(RegistrationView) -> bool {
    |r: RegistrationView| r.peer != peer
}

/// No peer has registered a function twice, and the registrations of one
/// function stand by rising priority number.
pub open spec fn registry_wf(regs: Seq<RegistrationView>) -> bool {
    forall|i: int, j: int|
        #![trigger regs[i], regs[j]]
        0 <= i < j < regs.len() && regs[i].name == regs[j].name ==> regs[i].peer != regs[j].peer
            && regs[i].priority <= regs[j].priority
}

/// Whether `peer` has registered the function `name`.
pub open spec fn is_registered(regs: Seq<RegistrationView>, name: Seq<char>, peer: PeerId) -> bool {
    any(regs, named_by(name, peer))
}

/// The handlers of the function `name` in the order in which they are tried.
pub open spec fn chain(regs: Seq<RegistrationView>, name: Seq<char>) -> Seq<RegistrationView> {
    regs.filter(named(name))
}

/// The peer that is tried first for the function `name`.
pub open spec fn first_handler(regs: Seq<RegistrationView>, name: Seq<char>) -> Option<PeerId> {
    let at = position(regs, named(name), 0);
    if at < regs.len() {
        Some(regs[at].peer)
    } else {
        None
    }
}

/// The peer that is tried for the function `name` when `after` has declined:
/// the next one behind `after` in the function's chain.
pub open spec fn next_handler(regs: Seq<RegistrationView>, name: Seq<char>, after: PeerId) -> Option<
    PeerId,
> {
    let at = position(regs, named_by(name, after), 0);
    let next = position(regs, named(name), at + 1);
    if next < regs.len() {
        Some(regs[next].peer)
    } else {
        None
    }
}

/// Where a new registration of `name` with `priority` goes: in front of the
/// first registration of that function with a greater priority number, and at
/// the end when there is none.
pub open spec fn insertion_point(regs: Seq<RegistrationView>, name: Seq<char>, priority: u16) -> int {
    position(regs, named_behind(name, priority), 0)
}

/// The registry after `peer` has registered `name` with `priority`.
pub open spec fn registered(
    regs: Seq<RegistrationView>,
    name: Seq<char>,
    peer: PeerId,
    priority: u16,
) -> Seq<RegistrationView> {
    regs.insert(insertion_point(regs, name, priority), RegistrationView { name, peer, priority })
}

/// The registry without the registrations of `peer`.
pub open spec fn deregistered(regs: Seq<RegistrationView>, peer: PeerId) -> Seq<RegistrationView> {
    regs.filter(by_others(peer))
}

/// Where in `s` the element stood that is number `i` of what filtering `s` by
/// `p` keeps.
pub open spec fn origin<T>(s: Seq<T>, p: spec_fn(T) -> bool, i: int) -> int
    decreases s.len(),
{
    if s.len() == 0 {
        0
    } else if i < s.drop_last().filter(p).len() {
        origin(s.drop_last(), p, i)
    } else {
        s.len() - 1
    }
}

/// What filtering keeps comes from the sequence and satisfies the filter.
pub(crate) proof fn lemma_origin<T>(s: Seq<T>, p: spec_fn(T) -> bool, i: int)
    requires
        0 <= i < s.filter(p).len(),
    ensures
        0 <= origin(s, p, i) < s.len(),
        s[origin(s, p, i)] == s.filter(p)[i],
        p(s.filter(p)[i]),
    decreases s.len(),
{
    reveal(Seq::filter);
    if s.len() > 0 && i < s.drop_last().filter(p).len() {
        lemma_origin(s.drop_last(), p, i);
    }
}

/// What filtering keeps stands in the order in which it stood.
pub(crate) proof fn lemma_origin_rises<T>(s: Seq<T>, p: spec_fn(T) -> bool, i: int, j: int)
    requires
        0 <= i < j < s.filter(p).len(),
    ensures
        origin(s, p, i) < origin(s, p, j),
    decreases s.len(),
{
    reveal(Seq::filter);
    if s.len() > 0 {
        if j < s.drop_last().filter(p).len() {
            lemma_origin_rises(s.drop_last(), p, i, j);
        } else {
            lemma_origin(s.drop_last(), p, i);
        }
    }
}

/// Filtering keeps every element that satisfies the filter: the place where
/// the element at `a` stands afterwards.
pub(crate) proof fn lemma_kept<T>(s: Seq<T>, p: spec_fn(T) -> bool, a: int) -> (i: int)
    requires
        0 <= a < s.len(),
        p(s[a]),
    ensures
        0 <= i < s.filter(p).len(),
        s.filter(p)[i] == s[a],
        origin(s, p, i) == a,
    decreases s.len(),
{
    reveal(Seq::filter);
    if a < s.len() - 1 {
        lemma_kept(s.drop_last(), p, a)
    } else {
        s.filter(p).len() - 1
    }
}

/// The first handler of a function is the one at the head of its chain.
pub proof fn lemma_first_of_chain(regs: Seq<RegistrationView>, name: Seq<char>)
    ensures
        first_handler(regs, name) == (if chain(regs, name).len() > 0 {
            Some(chain(regs, name)[0].peer)
        } else {
            None
        }),
{
    let p = named(name);
    let links = chain(regs, name);
    lemma_position(regs, p, 0);
    let a = position(regs, p, 0);
    if a < regs.len() {
        let i = lemma_kept(regs, p, a);
        if i > 0 {
            lemma_origin(regs, p, 0);
            lemma_origin_rises(regs, p, 0, i);
            assert(p(regs[origin(regs, p, 0)]));
        }
    } else if links.len() > 0 {
        lemma_origin(regs, p, 0);
        assert(p(regs[origin(regs, p, 0)]));
    }
}

/// The handler that is tried when the one at place `k` of a function's chain
/// has declined is the one at place `k + 1`; behind the last one nobody is
/// tried.
pub proof fn lemma_next_in_chain(regs: Seq<RegistrationView>, name: Seq<char>, k: int)
    requires
        registry_wf(regs),
        0 <= k < chain(regs, name).len(),
    ensures
        next_handler(regs, name, chain(regs, name)[k].peer) == (if k + 1 < chain(
            regs,
            name,
        ).len() {
            Some(chain(regs, name)[k + 1].peer)
        } else {
            None
        }),
{
    let p = named(name);
    let links = chain(regs, name);
    let after = links[k].peer;
    lemma_origin(regs, p, k);
    let a = origin(regs, p, k);
    assert(named_by(name, after)(regs[a]));
    assert forall|j: int| 0 <= j < a implies !named_by(name, after)(#[trigger] regs[j]) by {
        if regs[j].name == name {
            assert(regs[j].peer != regs[a].peer);
        }
    }
    crate::seqs::lemma_position_is(regs, named_by(name, after), 0, a);
    let end = if k + 1 < links.len() {
        lemma_origin(regs, p, k + 1);
        lemma_origin_rises(regs, p, k, k + 1);
        origin(regs, p, k + 1)
    } else {
        regs.len() as int
    };
    assert forall|c: int| a + 1 <= c < end implies !p(#[trigger] regs[c]) by {
        if p(regs[c]) {
            let j = lemma_kept(regs, p, c);
            if j < k {
                lemma_origin_rises(regs, p, j, k);
            } else if j > k + 1 {
                lemma_origin_rises(regs, p, k + 1, j);
            }
        }
    }
    crate::seqs::lemma_position_is(regs, p, a + 1, end);
}

/// The chain of a function holds its handlers only, each peer once, by rising
/// priority number.
pub proof fn lemma_chain_order(regs: Seq<RegistrationView>, name: Seq<char>, i: int, j: int)
    requires
        registry_wf(regs),
        0 <= i < j < chain(regs, name).len(),
    ensures
        chain(regs, name)[i].name == name,
        chain(regs, name)[j].name == name,
        chain(regs, name)[i].peer != chain(regs, name)[j].peer,
        chain(regs, name)[i].priority <= chain(regs, name)[j].priority,
{
    let p = named(name);
    lemma_origin(regs, p, i);
    lemma_origin(regs, p, j);
    lemma_origin_rises(regs, p, i, j);
    let a = origin(regs, p, i);
    let b = origin(regs, p, j);
    assert(regs[a].name == regs[b].name);
}

/// A registry stays well formed when a peer registers a function that it had
/// not registered.
pub proof fn lemma_registered_wf(
    regs: Seq<RegistrationView>,
    name: Seq<char>,
    peer: PeerId,
    priority: u16,
)
    requires
        registry_wf(regs),
        !is_registered(regs, name, peer),
    ensures
        registry_wf(registered(regs, name, peer, priority)),
{
    let at = insertion_point(regs, name, priority);
    let entry = RegistrationView { name, peer, priority };
    let out = registered(regs, name, peer, priority);
    lemma_position(regs, named_behind(name, priority), 0);
    lemma_any(regs, named_by(name, peer));
    assert forall|i: int, j: int| 0 <= i < j < out.len() && out[i].name == out[j].name implies (
    #[trigger] out[i]).peer != (#[trigger] out[j]).peer && out[i].priority <= out[j].priority by {
        let a = if i < at { i } else { i - 1 };
        let b = if j < at { j } else { j - 1 };
        if i == at {
            assert(out[j] == regs[b]);
            assert(!named_by(name, peer)(regs[b]));
            assert(named_behind(name, priority)(regs[at]));
            assert(regs[at].priority <= regs[b].priority);
        } else if j == at {
            assert(out[i] == regs[a]);
            assert(!named_by(name, peer)(regs[a]));
            assert(!named_behind(name, priority)(regs[a]));
        } else {
            assert(out[i] == regs[a] && out[j] == regs[b]);
        }
    }
}

/// A registry stays well formed when a peer's registrations leave it.
pub proof fn lemma_deregistered_wf(regs: Seq<RegistrationView>, peer: PeerId)
    requires
        registry_wf(regs),
    ensures
        registry_wf(deregistered(regs, peer)),
{
    let out = deregistered(regs, peer);
    assert forall|i: int, j: int| 0 <= i < j < out.len() && out[i].name == out[j].name implies (
    #[trigger] out[i]).peer != (#[trigger] out[j]).peer && out[i].priority <= out[j].priority by {
        lemma_origin(regs, by_others(peer), i);
        lemma_origin(regs, by_others(peer), j);
        lemma_origin_rises(regs, by_others(peer), i, j);
        let a = origin(regs, by_others(peer), i);
        let b = origin(regs, by_others(peer), j);
        assert(regs[a].name == regs[b].name);
    }
}

/// A registration made by another peer survives the leaving of `peer`.
pub(crate) proof fn lemma_deregistered_keeps(
    regs: Seq<RegistrationView>,
    peer: PeerId,
    name: Seq<char>,
    other: PeerId,
)
    requires
        is_registered(regs, name, other),
        other != peer,
    ensures
        is_registered(deregistered(regs, peer), name, other),
{
    lemma_position(regs, named_by(name, other), 0);
    let a = position(regs, named_by(name, other), 0);
    assert(by_others(peer)(regs[a]));
    let i = lemma_kept(regs, by_others(peer), a);
    assert(named_by(name, other)(deregistered(regs, peer)[i]));
    lemma_any(deregistered(regs, peer), named_by(name, other));
}

/// Every registration that is left after `peer` has gone was there before,
/// and none of them is by `peer`.
pub(crate) proof fn lemma_deregistered_from(regs: Seq<RegistrationView>, peer: PeerId, i: int) -> (a: int)
    requires
        0 <= i < deregistered(regs, peer).len(),
    ensures
        0 <= a < regs.len(),
        regs[a] == deregistered(regs, peer)[i],
        deregistered(regs, peer)[i].peer != peer,
{
    lemma_origin(regs, by_others(peer), i);
    origin(regs, by_others(peer), i)
}

/// A registration survives the registering of another one.
pub(crate) proof fn lemma_registered_keeps(
    regs: Seq<RegistrationView>,
    name: Seq<char>,
    peer: PeerId,
    priority: u16,
    other_name: Seq<char>,
    other: PeerId,
)
    requires
        is_registered(regs, other_name, other),
    ensures
        is_registered(registered(regs, name, peer, priority), other_name, other),
{
    lemma_position(regs, named_by(other_name, other), 0);
    lemma_position(regs, named_behind(name, priority), 0);
    let a = position(regs, named_by(other_name, other), 0);
    let at = insertion_point(regs, name, priority);
    let out = registered(regs, name, peer, priority);
    let b = if a < at { a } else { a + 1 };
    assert(out[b] == regs[a]);
    assert(named_by(other_name, other)(out[b]));
    lemma_any(out, named_by(other_name, other));
}

/// The function registry.
pub struct Registry {
    entries: Vec<Registration>,
}

impl View for Registry {
    type V = Seq<RegistrationView>;

    closed spec fn view(&self) -> Seq<RegistrationView> {
        self.entries@.map_values(|r: Registration| r@)
    }
}

impl Registry {
    /// The registry's invariant.
    pub open spec fn wf(&self) -> bool {
        registry_wf(self@)
    }

    /// A registry without registrations.
    pub fn new() -> (res: Registry)
        ensures
            res@ == Seq::<RegistrationView>::empty(),
            res.wf(),
    {
        let res = Registry { entries: Vec::new() };
        assert(res@ =~= Seq::<RegistrationView>::empty());
        res
    }

    /// The number of registrations.
    pub fn len(&self) -> (res: usize)
        ensures
            res == self@.len(),
    {
        self.entries.len()
    }

    /// Whether `peer` has registered the function `name`.
    pub fn is_registered(&self, name: &String, peer: PeerId) -> (res: bool)
        ensures
            res == is_registered(self@, name@, peer),
    {
        let at = self.find_by(name, peer, 0);
        at < self.entries.len()
    }

    /// Whether any peer serves the function `name`.
    pub fn has_function(&self, name: &String) -> (res: bool)
        ensures
            res == first_handler(self@, name@).is_some(),
    {
        self.find(name, 0) < self.entries.len()
    }

    /// The peer that is tried first for the function `name`.
    pub fn first_handler(&self, name: &String) -> (res: Option<PeerId>)
        ensures
            res == first_handler(self@, name@),
    {
        let at = self.find(name, 0);
        if at < self.entries.len() {
            Some(self.entries[at].peer)
        } else {
            None
        }
    }

    /// The peer that is tried for the function `name` when `after` has
    /// declined.
    pub fn next_handler(&self, name: &String, after: PeerId) -> (res: Option<PeerId>)
        ensures
            res == next_handler(self@, name@, after),
    {
        let at = self.find_by(name, after, 0);
        if at < self.entries.len() {
            let next = self.find(name, at + 1);
            if next < self.entries.len() {
                Some(self.entries[next].peer)
            } else {
                None
            }
        } else {
            None
        }
    }

    /// Registers the function `name` for `peer` with `priority`. A peer can
    /// register a function once; a second registration is refused and
    /// changes nothing.
    pub fn register(&mut self, peer: PeerId, name: String, priority: u16) -> (res: Result<
        (),
        ErrorKind,
    >)
        ensures
            old(self).wf() ==> final(self).wf(),
            is_registered(old(self)@, name@, peer) ==> res == Err::<(), ErrorKind>(
                ErrorKind::DuplicateFunctionForPeer,
            ) && final(self)@ == old(self)@,
            !is_registered(old(self)@, name@, peer) ==> res == Ok::<(), ErrorKind>(())
                && final(self)@ == registered(old(self)@, name@, peer, priority),
    {
        if self.is_registered(&name, peer) {
            return Err(ErrorKind::DuplicateFunctionForPeer);
        }
        let at = self.find_behind(&name, priority);
        proof {
            if self.wf() {
                lemma_registered_wf(self@, name@, peer, priority);
            }
        }
        self.entries.insert(at, Registration { name, peer, priority });
        assert(self@ =~= registered(old(self)@, name@, peer, priority));
        Ok(())
    }

    /// Removes every registration of `peer`.
    pub fn deregister(&mut self, peer: PeerId)
        ensures
            final(self)@ == deregistered(old(self)@, peer),
            old(self).wf() ==> final(self).wf(),
    {
        let ghost orig = self@;
        let ghost mut seen: int = 0;
        let mut i: usize = 0;
        assert(orig.take(0).filter(by_others(peer)) =~= self@.take(0)) by {
            reveal(Seq::filter);
        }
        assert(self@.skip(0) =~= orig.skip(0));
        while i < self.entries.len()
            invariant
                0 <= i <= self.entries.len(),
                0 <= seen <= orig.len(),
                self@.len() - i == orig.len() - seen,
                self@.take(i as int) == orig.take(seen).filter(by_others(peer)),
                self@.skip(i as int) == orig.skip(seen),
            decreases self.entries.len() - i,
        {
            let ghost before = self@;
            assert(before[i as int] == before.skip(i as int)[0]);
            assert(orig[seen] == orig.skip(seen)[0]);
            proof {
                assert(orig.take(seen + 1) =~= orig.take(seen).push(orig[seen]));
                orig.take(seen).lemma_filter_push(orig[seen], by_others(peer));
            }
            if self.entries[i].peer == peer {
                self.entries.remove(i);
                assert(self@.take(i as int) =~= before.take(i as int));
                assert forall|k: int| 0 <= k < self@.len() - i implies self@.skip(i as int)[k]
                    == orig.skip(seen + 1)[k] by {
                    assert(self@[i + k] == before[i + k + 1]);
                    assert(before.skip(i as int)[k + 1] == orig.skip(seen)[k + 1]);
                }
                assert(self@.skip(i as int) =~= orig.skip(seen + 1));
            } else {
                i += 1;
                assert(self@.take(i as int) =~= before.take(i - 1).push(before[i - 1]));
                assert forall|k: int| 0 <= k < self@.len() - i implies self@.skip(i as int)[k]
                    == orig.skip(seen + 1)[k] by {
                    assert(before.skip(i - 1)[k + 1] == orig.skip(seen)[k + 1]);
                }
                assert(self@.skip(i as int) =~= orig.skip(seen + 1));
            }
            proof {
                seen = seen + 1;
            }
        }
        assert(self@.take(i as int) =~= self@);
        assert(orig.take(seen) =~= orig);
        proof {
            if old(self).wf() {
                lemma_deregistered_wf(orig, peer);
            }
        }
    }

    /// The index of the first registration of `name` at or after `start`.
    fn find(&self, name: &String, start: usize) -> (res: usize)
        requires
            start <= self@.len(),
        ensures
            res == position(self@, named(name@), start as int),
            start <= res <= self@.len(),
    {
        let mut i: usize = start;
        while i < self.entries.len()
            invariant
                start <= i <= self.entries.len(),
                self.entries.len() == self@.len(),
                position(self@, named(name@), start as int) == position(
                    self@,
                    named(name@),
                    i as int,
                ),
            decreases self.entries.len() - i,
        {
            assert(self@[i as int] == self.entries@[i as int]@);
            if self.entries[i].name == *name {
                return i;
            }
            i += 1;
        }
        i
    }

    /// The index of the registration of `name` by `peer` at or after `start`.
    fn find_by(&self, name: &String, peer: PeerId, start: usize) -> (res: usize)
        requires
            start <= self@.len(),
        ensures
            res == position(self@, named_by(name@, peer), start as int),
            start <= res <= self@.len(),
    {
        let mut i: usize = start;
        while i < self.entries.len()
            invariant
                start <= i <= self.entries.len(),
                self.entries.len() == self@.len(),
                position(self@, named_by(name@, peer), start as int) == position(
                    self@,
                    named_by(name@, peer),
                    i as int,
                ),
            decreases self.entries.len() - i,
        {
            assert(self@[i as int] == self.entries@[i as int]@);
            if self.entries[i].peer == peer && self.entries[i].name == *name {
                return i;
            }
            i += 1;
        }
        i
    }

    /// Where a new registration of `name` with `priority` goes.
    fn find_behind(&self, name: &String, priority: u16) -> (res: usize)
        ensures
            res == insertion_point(self@, name@, priority),
            res <= self@.len(),
    {
        let mut i: usize = 0;
        while i < self.entries.len()
            invariant
                i <= self.entries.len(),
                self.entries.len() == self@.len(),
                position(self@, named_behind(name@, priority), 0) == position(
                    self@,
                    named_behind(name@, priority),
                    i as int,
                ),
            decreases self.entries.len() - i,
        {
            assert(self@[i as int] == self.entries@[i as int]@);
            if self.entries[i].priority > priority && self.entries[i].name == *name {
                return i;
            }
            i += 1;
        }
        i
    }
}

} // verus!
