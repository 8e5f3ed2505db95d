//! The in-memory store with its subscription index.
//!
//! The store maps keys to records and keeps, for each key and client, at most
//! one watcher. Every mutation first changes the visible state and only then
//! notifies the key's watchers in two coordinated phases, so that all
//! subscribers of the key hold the mutation's value before any one of them is
//! woken.

use vstd::prelude::*;
use crate::access::{WatcherActivity, WatcherBehaviour};
use crate::errors::NetworkError;
use crate::keys::Key;
use crate::values::{Value, ValueView};
use crate::watcher::{Watcher, WatcherView, duplicate_opt_value};
use crate::ClientId;

verus! {

/// A stored record: the value bound to a key.
pub struct Record {
    pub value: Value,
}

impl Record {
    pub fn new(value: Value) -> (r: Self)
        ensures
            r.value == value,
    {
        Self { value }
    }

    /// The record's value.
    pub fn value(&self) -> (r: &Value)
        ensures
            r == &self.value,
    {
        &self.value
    }

    /// Appends the record's wire encoding: the bare value.
    pub fn write(&self, out: &mut Vec<u8>)
        ensures
            final(out)@ == old(out)@ + crate::codec::spec_ser_value(self.value@),
    {
        crate::codec::write_value(&self.value, out)
    }

    /// Reads a record from its wire encoding at `pos`.
    pub fn read(bytes: &[u8], pos: usize) -> (r: Result<(Self, usize), NetworkError>)
        requires
            pos <= bytes@.len(),
        ensures
            r matches Ok((rec, end)) ==> pos <= end <= bytes@.len()
                && crate::codec::spec_parse_value(bytes@.skip(pos as int)) == Some(
                (rec.value@, end - pos),
            ),
            r is Err <==> crate::codec::spec_parse_value(bytes@.skip(pos as int)) is None,
    {
        match crate::codec::read_value(bytes, pos) {
            Ok((value, end)) => Ok((Self { value }, end)),
            Err(e) => Err(e),
        }
    }
}

// ---------------------------------------------------------------------------
// Specification: lookups over the record list and the subscription relation.
// ---------------------------------------------------------------------------

/// The value bound to `k`, if any: the first matching entry decides.
pub open spec fn spec_find_value(entries: Seq<(Key, Record)>, k: Seq<char>) -> Option<ValueView>
    decreases entries.len(),
{
    if entries.len() == 0 {
        None
    } else if entries[0].0@ == k {
        Some(entries[0].1.value@)
    } else {
        spec_find_value(entries.skip(1), k)
    }
}

/// No two record entries share a key.
pub open spec fn spec_keys_unique(entries: Seq<(Key, Record)>) -> bool {
    forall|i: int, j: int|
        0 <= i < j < entries.len() ==> entries[i].0@ != entries[j].0@
}

/// The set of keys the store binds.
pub open spec fn spec_dom(entries: Seq<(Key, Record)>) -> Set<Seq<char>>
    decreases entries.len(),
{
    if entries.len() == 0 {
        Set::empty()
    } else {
        spec_dom(entries.skip(1)).insert(entries[0].0@)
    }
}

/// The watcher registered for `(k, c)`, if any: the first match decides.
pub open spec fn spec_find_sub(
    subs: Seq<(Key, ClientId, Watcher)>,
    k: Seq<char>,
    c: ClientId,
) -> Option<WatcherView>
    decreases subs.len(),
{
    if subs.len() == 0 {
        None
    } else if subs[0].0@ == k && subs[0].1 == c {
        Some(subs[0].2@)
    } else {
        spec_find_sub(subs.skip(1), k, c)
    }
}

/// How many subscriptions the relation holds for `(k, c)`.
pub open spec fn spec_count_subs(
    subs: Seq<(Key, ClientId, Watcher)>,
    k: Seq<char>,
    c: ClientId,
) -> nat
    decreases subs.len(),
{
    if subs.len() == 0 {
        0
    } else {
        (if subs[0].0@ == k && subs[0].1 == c {
            1nat
        } else {
            0nat
        }) + spec_count_subs(subs.skip(1), k, c)
    }
}

/// No two subscription entries share a key and client.
pub open spec fn spec_subs_unique(subs: Seq<(Key, ClientId, Watcher)>) -> bool {
    forall|i: int, j: int|
        0 <= i < j < subs.len() ==> !(subs[i].0@ == subs[j].0@ && subs[i].1 == subs[j].1)
}

// ---------------------------------------------------------------------------
// Lemmas about the lookups.
// ---------------------------------------------------------------------------

/// A key is bound exactly when it is in the domain.
pub proof fn lemma_find_in_dom(entries: Seq<(Key, Record)>, k: Seq<char>)
    ensures
        spec_find_value(entries, k) is Some <==> spec_dom(entries).contains(k),
    decreases entries.len(),
{
    if entries.len() > 0 {
        lemma_find_in_dom(entries.skip(1), k);
    }
}

/// The domain is finite.
pub proof fn lemma_dom_finite(entries: Seq<(Key, Record)>)
    ensures
        spec_dom(entries).finite(),
    decreases entries.len(),
{
    if entries.len() > 0 {
        lemma_dom_finite(entries.skip(1));
    }
}

/// With unique keys, the store binds exactly as many keys as it has entries.
pub proof fn lemma_dom_len(entries: Seq<(Key, Record)>)
    requires
        spec_keys_unique(entries),
    ensures
        spec_dom(entries).finite(),
        spec_dom(entries).len() == entries.len(),
    decreases entries.len(),
{
    lemma_dom_finite(entries);
    if entries.len() > 0 {
        let tail = entries.skip(1);
        assert forall|i: int, j: int|
            0 <= i < j < tail.len() implies tail[i].0@ != tail[j].0@ by {
            assert(entries[i + 1].0@ != entries[j + 1].0@);
        }
        lemma_dom_len(tail);
        lemma_find_in_dom(tail, entries[0].0@);
        assert(spec_find_value(tail, entries[0].0@) is None) by {
            lemma_find_none(tail, entries[0].0@);
        }
    }
}

/// If no entry carries `k`, the lookup fails.
pub proof fn lemma_find_none(entries: Seq<(Key, Record)>, k: Seq<char>)
    requires
        forall|i: int| 0 <= i < entries.len() ==> entries[i].0@ != k,
    ensures
        spec_find_value(entries, k) is None,
    decreases entries.len(),
{
    if entries.len() > 0 {
        lemma_find_none(entries.skip(1), k);
    }
}

/// The lookup finds the entry at a position whose predecessors all miss.
pub proof fn lemma_find_at(entries: Seq<(Key, Record)>, k: Seq<char>, i: int)
    requires
        0 <= i < entries.len(),
        entries[i].0@ == k,
        forall|j: int| 0 <= j < i ==> entries[j].0@ != k,
    ensures
        spec_find_value(entries, k) == Some(entries[i].1.value@),
    decreases i,
{
    if i > 0 {
        lemma_find_at(entries.skip(1), k, i - 1);
    }
}

/// A miss everywhere means the lookup fails; stated for callers that
/// searched the whole list.
pub proof fn lemma_find_none_all(entries: Seq<(Key, Record)>, k: Seq<char>)
    requires
        forall|j: int| 0 <= j < entries.len() ==> entries[j].0@ != k,
    ensures
        spec_find_value(entries, k) is None,
{
    lemma_find_none(entries, k);
}

/// A failed lookup means every entry misses.
pub proof fn lemma_find_none_converse(entries: Seq<(Key, Record)>, k: Seq<char>)
    requires
        spec_find_value(entries, k) is None,
    ensures
        forall|j: int| 0 <= j < entries.len() ==> entries[j].0@ != k,
    decreases entries.len(),
{
    if entries.len() > 0 {
        lemma_find_none_converse(entries.skip(1), k);
        assert forall|j: int| 0 <= j < entries.len() implies entries[j].0@ != k by {
            if j > 0 {
                assert(entries.skip(1)[j - 1].0@ != k);
            }
        }
    }
}

/// Updating the entry at `i` in place rebinds its key and nothing else.
pub proof fn lemma_find_update(entries: Seq<(Key, Record)>, i: int, e: (Key, Record), k: Seq<char>)
    requires
        0 <= i < entries.len(),
        e.0@ == entries[i].0@,
        spec_keys_unique(entries),
    ensures
        spec_find_value(entries.update(i, e), k) == if k == entries[i].0@ {
            Some(e.1.value@)
        } else {
            spec_find_value(entries, k)
        },
    decreases i,
{
    let updated = entries.update(i, e);
    if i == 0 {
        assert(updated.skip(1) =~= entries.skip(1));
    } else {
        assert(updated[0] == entries[0]);
        assert(updated.skip(1) =~= entries.skip(1).update(i - 1, e));
        let tail = entries.skip(1);
        assert forall|x: int, y: int|
            0 <= x < y < tail.len() implies tail[x].0@ != tail[y].0@ by {
            assert(entries[x + 1].0@ != entries[y + 1].0@);
        }
        lemma_find_update(tail, i - 1, e, k);
    }
}

/// Appending a fresh entry binds its key and nothing else.
pub proof fn lemma_find_push(entries: Seq<(Key, Record)>, e: (Key, Record), k: Seq<char>)
    ensures
        spec_find_value(entries.push(e), k) == if spec_find_value(entries, k) is Some {
            spec_find_value(entries, k)
        } else if k == e.0@ {
            Some(e.1.value@)
        } else {
            None::<ValueView>
        },
    decreases entries.len(),
{
    let pushed = entries.push(e);
    assert(pushed.len() == entries.len() + 1);
    if entries.len() == 0 {
        assert(pushed[0] == e);
        assert(pushed.skip(1) =~= Seq::<(Key, Record)>::empty());
        assert(spec_find_value(pushed.skip(1), k) is None);
        if k == e.0@ {
            assert(spec_find_value(pushed, k) == Some(e.1.value@));
        } else {
            assert(spec_find_value(pushed, k) is None);
        }
    } else {
        assert(pushed[0] == entries[0]);
        assert(pushed.skip(1) =~= entries.skip(1).push(e));
        lemma_find_push(entries.skip(1), e, k);
        if entries[0].0@ == k {
            assert(spec_find_value(pushed, k) == Some(entries[0].1.value@));
            assert(spec_find_value(entries, k) == Some(entries[0].1.value@));
        } else {
            assert(spec_find_value(pushed, k) == spec_find_value(entries.skip(1).push(e), k));
            assert(spec_find_value(entries, k) == spec_find_value(entries.skip(1), k));
        }
    }
}

/// Removing the entry at `i` unbinds its key and nothing else.
pub proof fn lemma_find_remove(entries: Seq<(Key, Record)>, i: int, k: Seq<char>)
    requires
        0 <= i < entries.len(),
        spec_keys_unique(entries),
    ensures
        spec_find_value(entries.remove(i), k) == if k == entries[i].0@ {
            None::<ValueView>
        } else {
            spec_find_value(entries, k)
        },
    decreases i,
{
    let removed = entries.remove(i);
    if k == entries[i].0@ {
        assert forall|j: int| 0 <= j < removed.len() implies removed[j].0@ != k by {
            if j < i {
                assert(removed[j] == entries[j]);
            } else {
                assert(removed[j] == entries[j + 1]);
            }
        }
        lemma_find_none(removed, k);
    } else {
        if i == 0 {
            assert(removed =~= entries.skip(1));
        } else {
            assert(removed[0] == entries[0]);
            assert(removed.skip(1) =~= entries.skip(1).remove(i - 1));
            let tail = entries.skip(1);
            assert forall|x: int, y: int|
                0 <= x < y < tail.len() implies tail[x].0@ != tail[y].0@ by {
                assert(entries[x + 1].0@ != entries[y + 1].0@);
            }
            lemma_find_remove(tail, i - 1, k);
        }
    }
}

/// The subscription lookup finds the entry at a position whose predecessors
/// all miss.
proof fn lemma_find_sub_at(subs: Seq<(Key, ClientId, Watcher)>, k: Seq<char>, c: ClientId, i: int)
    requires
        0 <= i < subs.len(),
        subs[i].0@ == k && subs[i].1 == c,
        forall|j: int| 0 <= j < i ==> !(subs[j].0@ == k && subs[j].1 == c),
    ensures
        spec_find_sub(subs, k, c) == Some(subs[i].2@),
    decreases i,
{
    if i > 0 {
        lemma_find_sub_at(subs.skip(1), k, c, i - 1);
    }
}

/// If no entry carries `(k, c)`, the subscription lookup fails.
proof fn lemma_find_sub_none(subs: Seq<(Key, ClientId, Watcher)>, k: Seq<char>, c: ClientId)
    requires
        forall|j: int| 0 <= j < subs.len() ==> !(subs[j].0@ == k && subs[j].1 == c),
    ensures
        spec_find_sub(subs, k, c) is None,
    decreases subs.len(),
{
    if subs.len() > 0 {
        lemma_find_sub_none(subs.skip(1), k, c);
    }
}

/// If no entry carries `(k, c)`, the count is zero.
proof fn lemma_count_subs_none(subs: Seq<(Key, ClientId, Watcher)>, k: Seq<char>, c: ClientId)
    requires
        forall|j: int| 0 <= j < subs.len() ==> !(subs[j].0@ == k && subs[j].1 == c),
    ensures
        spec_count_subs(subs, k, c) == 0,
    decreases subs.len(),
{
    if subs.len() > 0 {
        lemma_count_subs_none(subs.skip(1), k, c);
    }
}

/// At most one subscription per key and client: with unique entries the
/// relation counts zero or one watchers for every pair.
pub proof fn lemma_at_most_one_subscription(
    subs: Seq<(Key, ClientId, Watcher)>,
    k: Seq<char>,
    c: ClientId,
)
    requires
        spec_subs_unique(subs),
    ensures
        spec_count_subs(subs, k, c) <= 1,
    decreases subs.len(),
{
    if subs.len() > 0 {
        let tail = subs.skip(1);
        assert forall|x: int, y: int|
            0 <= x < y < tail.len() implies !(tail[x].0@ == tail[y].0@ && tail[x].1
            == tail[y].1) by {
            assert(!(subs[x + 1].0@ == subs[y + 1].0@ && subs[x + 1].1 == subs[y + 1].1));
        }
        if subs[0].0@ == k && subs[0].1 == c {
            assert forall|j: int|
                0 <= j < tail.len() implies !(tail[j].0@ == k && tail[j].1 == c) by {
                assert(!(subs[0].0@ == subs[j + 1].0@ && subs[0].1 == subs[j + 1].1));
            }
            lemma_count_subs_none(tail, k, c);
        } else {
            lemma_at_most_one_subscription(tail, k, c);
        }
    }
}

// ---------------------------------------------------------------------------
// The store.
// ---------------------------------------------------------------------------

/// The in-memory store: the bound records and the subscription relation.
pub struct MemoryDatabase {
    pub records: Vec<(Key, Record)>,
    pub subs: Vec<(Key, ClientId, Watcher)>,
}

impl MemoryDatabase {
    /// Well-formedness: keys bind at most one record, and every key and
    /// client pair holds at most one subscription.
    pub open spec fn wf(self) -> bool {
        spec_keys_unique(self.records@) && spec_subs_unique(self.subs@)
    }

    /// What the store binds to `k`.
    pub open spec fn spec_get(self, k: Seq<char>) -> Option<ValueView> {
        spec_find_value(self.records@, k)
    }

    /// An empty store.
    pub fn new() -> (r: Self)
        ensures
            r.wf(),
            r.records@.len() == 0,
            r.subs@.len() == 0,
    {
        Self { records: Vec::new(), subs: Vec::new() }
    }

    /// How many keys are bound.
    pub fn len(&self) -> (r: usize)
        ensures
            r == self.records@.len(),
    {
        self.records.len()
    }

    /// The position of `key` among the records, if bound.
    fn find_index(&self, key: &Key) -> (r: Option<usize>)
        ensures
            r matches Some(i) ==> i < self.records@.len() && self.records@[i as int].0@ == key@
                && spec_find_value(self.records@, key@) == Some(
                self.records@[i as int].1.value@,
            ),
            r is None ==> spec_find_value(self.records@, key@) is None,
    {
        let n = self.records.len();
        let mut i: usize = 0;
        while i < n
            invariant
                n == self.records@.len(),
                i <= n,
                forall|j: int| 0 <= j < i ==> self.records@[j].0@ != key@,
            decreases n - i,
        {
            if self.records[i].0.matches(key) {
                proof {
                    lemma_find_at(self.records@, key@, i as int);
                }
                return Some(i);
            }
            i = i + 1;
        }
        proof {
            lemma_find_none_all(self.records@, key@);
        }
        None
    }

    /// The position of `(key, client)` in the subscription relation, if
    /// subscribed.
    fn find_sub_index(&self, key: &Key, client: ClientId) -> (r: Option<usize>)
        ensures
            r matches Some(i) ==> i < self.subs@.len() && self.subs@[i as int].0@ == key@
                && self.subs@[i as int].1 == client && spec_find_sub(self.subs@, key@, client)
                == Some(self.subs@[i as int].2@) && (forall|j: int|
                0 <= j < i ==> !(self.subs@[j].0@ == key@ && self.subs@[j].1 == client)),
            r is None ==> spec_find_sub(self.subs@, key@, client) is None,
    {
        let n = self.subs.len();
        let mut i: usize = 0;
        while i < n
            invariant
                n == self.subs@.len(),
                i <= n,
                forall|j: int| 0 <= j < i ==> !(self.subs@[j].0@ == key@ && self.subs@[j].1 == client),
            decreases n - i,
        {
            if self.subs[i].0.matches(key) && self.subs[i].1 .0 == client.0 {
                proof {
                    lemma_find_sub_at(self.subs@, key@, client, i as int);
                }
                return Some(i);
            }
            i = i + 1;
        }
        proof {
            lemma_find_sub_none(self.subs@, key@, client);
        }
        None
    }

    /// The current value of a key, or nothing.
    pub fn get(&self, key: &Key) -> (r: Option<Value>)
        ensures
            r.deep_view() == self.spec_get(key@),
    {
        match self.find_index(key) {
            Some(i) => Some(self.records[i].1.value.duplicate()),
            None => None,
        }
    }

    /// Deposits `value` into every watcher of `key` and then signals them
    /// all: the coordinated notify. Returns whether the key had watchers.
    pub fn notify(&mut self, key: &Key, value: Option<Value>) -> (r: bool)
        ensures
            final(self).records == old(self).records,
            final(self).subs@.len() == old(self).subs@.len(),
            forall|j: int|
                0 <= j < old(self).subs@.len() ==> {
                    &&& final(self).subs@[j].0 == old(self).subs@[j].0
                    &&& final(self).subs@[j].1 == old(self).subs@[j].1
                    &&& if old(self).subs@[j].0@ == key@ {
                        final(self).subs@[j].2@ == old(self).subs@[j].2@.deposited(
                            value.deep_view(),
                        ).signaled()
                    } else {
                        final(self).subs@[j].2 == old(self).subs@[j].2
                    }
                },
            r == exists|j: int| 0 <= j < old(self).subs@.len() && old(self).subs@[j].0@ == key@,
            old(self).wf() ==> final(self).wf(),
    {
        let ghost orig = self.subs@;
        let n = self.subs.len();
        let mut found = false;
        let mut i: usize = 0;
        while i < n
            invariant
                n == self.subs@.len() == orig.len(),
                i <= n,
                self.records == old(self).records,
                forall|j: int| i <= j < n ==> self.subs@[j] == orig[j],
                forall|j: int|
                    0 <= j < i ==> {
                        &&& self.subs@[j].0 == orig[j].0
                        &&& self.subs@[j].1 == orig[j].1
                        &&& if orig[j].0@ == key@ {
                            self.subs@[j].2@ == orig[j].2@.deposited(value.deep_view())
                        } else {
                            self.subs@[j].2 == orig[j].2
                        }
                    },
                found ==> exists|j: int| 0 <= j < i && orig[j].0@ == key@,
                !found ==> forall|j: int| 0 <= j < i ==> orig[j].0@ != key@,
            decreases n - i,
        {
            if self.subs[i].0.matches(key) {
                let v = duplicate_opt_value(&value);
                proof {
                    assert(orig[i as int].0@ == key@);
                }
                let entry = &mut self.subs[i];
                entry.2.wake_without_notify(v);
                found = true;
            }
            i = i + 1;
        }
        let ghost mid = self.subs@;
        let mut i: usize = 0;
        while i < n
            invariant
                n == self.subs@.len() == mid.len() == orig.len(),
                i <= n,
                self.records == old(self).records,
                forall|j: int| i <= j < n ==> self.subs@[j] == mid[j],
                forall|j: int|
                    0 <= j < n ==> {
                        &&& mid[j].0 == orig[j].0
                        &&& mid[j].1 == orig[j].1
                        &&& if orig[j].0@ == key@ {
                            mid[j].2@ == orig[j].2@.deposited(value.deep_view())
                        } else {
                            mid[j].2 == orig[j].2
                        }
                    },
                forall|j: int|
                    0 <= j < i ==> {
                        &&& self.subs@[j].0 == mid[j].0
                        &&& self.subs@[j].1 == mid[j].1
                        &&& if orig[j].0@ == key@ {
                            self.subs@[j].2@ == mid[j].2@.signaled()
                        } else {
                            self.subs@[j].2 == mid[j].2
                        }
                    },
            decreases n - i,
        {
            if self.subs[i].0.matches(key) {
                let entry = &mut self.subs[i];
                entry.2.signal();
            }
            i = i + 1;
        }
        proof {
            if !found {
                assert(!(exists|j: int| 0 <= j < n && orig[j].0@ == key@));
            }
            if old(self).wf() {
                let subs = self.subs@;
                assert forall|x: int, y: int|
                    0 <= x < y < subs.len() implies !(subs[x].0@ == subs[y].0@ && subs[x].1
                    == subs[y].1) by {
                    assert(!(orig[x].0@ == orig[y].0@ && orig[x].1 == orig[y].1));
                }
            }
        }
        found
    }

    /// Binds `value` to `key`, replacing any current binding, and then
    /// notifies the key's watchers of the new value.
    pub fn insert(&mut self, key: Key, value: Value)
        requires
            old(self).wf(),
        ensures
            final(self).wf(),
            final(self).spec_get(key@) == Some(value@),
            forall|k2: Seq<char>| k2 != key@ ==> final(self).spec_get(k2) == old(self).spec_get(k2),
            final(self).records@.len() == if old(self).spec_get(key@) is Some {
                old(self).records@.len()
            } else {
                old(self).records@.len() + 1
            },
            final(self).subs@.len() == old(self).subs@.len(),
            forall|j: int|
                0 <= j < old(self).subs@.len() ==> {
                    &&& final(self).subs@[j].0 == old(self).subs@[j].0
                    &&& final(self).subs@[j].1 == old(self).subs@[j].1
                    &&& if old(self).subs@[j].0@ == key@ {
                        final(self).subs@[j].2@ == old(self).subs@[j].2@.deposited(
                            Some(value@),
                        ).signaled()
                    } else {
                        final(self).subs@[j].2 == old(self).subs@[j].2
                    }
                },
    {
        let notify_value = Some(value.duplicate());
        match self.find_index(&key) {
            Some(i) => {
                let ghost entries = self.records@;
                proof {
                    assert forall|k2: Seq<char>| true implies spec_find_value(
                        entries.update(i as int, (entries[i as int].0, Record { value: value })),
                        k2,
                    ) == if k2 == entries[i as int].0@ {
                        Some(value@)
                    } else {
                        spec_find_value(entries, k2)
                    } by {
                        lemma_find_update(
                            entries,
                            i as int,
                            (entries[i as int].0, Record { value: value }),
                            k2,
                        );
                    }
                }
                let entry = &mut self.records[i];
                entry.1 = Record { value };
                proof {
                    let now = self.records@;
                    assert forall|x: int, y: int|
                        0 <= x < y < now.len() implies now[x].0@ != now[y].0@ by {
                        assert(now[x].0@ == entries[x].0@ && now[y].0@ == entries[y].0@);
                    }
                }
            },
            None => {
                let ghost entries = self.records@;
                let ghost e = (key, Record { value: value });
                proof {
                    assert forall|k2: Seq<char>| true implies spec_find_value(
                        entries.push(e),
                        k2,
                    ) == if spec_find_value(entries, k2) is Some {
                        spec_find_value(entries, k2)
                    } else if k2 == e.0@ {
                        Some(e.1.value@)
                    } else {
                        None::<ValueView>
                    } by {
                        lemma_find_push(entries, e, k2);
                    }
                }
                proof {
                    lemma_find_none_converse(entries, key@);
                }
                let dup = key.duplicate();
                self.records.push((dup, Record { value }));
                proof {
                    let now = self.records@;
                    assert forall|x: int, y: int|
                        0 <= x < y < now.len() implies now[x].0@ != now[y].0@ by {
                        if y == now.len() - 1 {
                            assert(now[x].0@ == entries[x].0@);
                        } else {
                            assert(now[x].0@ == entries[x].0@ && now[y].0@ == entries[y].0@);
                        }
                    }
                }
            },
        }
        self.notify(&key, notify_value);
    }

    /// Unbinds `key`. If it was bound, notifies the key's watchers of the
    /// deletion and returns true; otherwise returns false and changes
    /// nothing.
    pub fn delete(&mut self, key: &Key) -> (r: bool)
        requires
            old(self).wf(),
        ensures
            final(self).wf(),
            r == (old(self).spec_get(key@) is Some),
            final(self).spec_get(key@) is None,
            forall|k2: Seq<char>| k2 != key@ ==> final(self).spec_get(k2) == old(self).spec_get(k2),
            final(self).records@.len() == if old(self).spec_get(key@) is Some {
                old(self).records@.len() - 1
            } else {
                old(self).records@.len() as int
            },
            final(self).subs@.len() == old(self).subs@.len(),
            forall|j: int|
                0 <= j < old(self).subs@.len() ==> {
                    &&& final(self).subs@[j].0 == old(self).subs@[j].0
                    &&& final(self).subs@[j].1 == old(self).subs@[j].1
                    &&& if r && old(self).subs@[j].0@ == key@ {
                        final(self).subs@[j].2@ == old(self).subs@[j].2@.deposited(
                            None,
                        ).signaled()
                    } else {
                        final(self).subs@[j].2 == old(self).subs@[j].2
                    }
                },
    {
        match self.find_index(key) {
            Some(i) => {
                let ghost entries = self.records@;
                proof {
                    assert forall|k2: Seq<char>| true implies spec_find_value(
                        entries.remove(i as int),
                        k2,
                    ) == if k2 == entries[i as int].0@ {
                        None::<ValueView>
                    } else {
                        spec_find_value(entries, k2)
                    } by {
                        lemma_find_remove(entries, i as int, k2);
                    }
                    assert forall|x: int, y: int|
                        0 <= x < y < entries.remove(i as int).len() implies entries.remove(
                        i as int,
                    )[x].0@ != entries.remove(i as int)[y].0@ by {
                        let rem = entries.remove(i as int);
                        let xo: int = if x < i {
                            x
                        } else {
                            x + 1
                        };
                        let yo: int = if y < i {
                            y
                        } else {
                            y + 1
                        };
                        assert(rem[x] == entries[xo]);
                        assert(rem[y] == entries[yo]);
                    }
                }
                self.records.remove(i);
                self.notify(key, None);
                true
            },
            None => false,
        }
    }

    /// Registers a watcher for `(key, client)`. A kickback subscription is
    /// immediately woken with the current value (possibly nothing). A second
    /// subscription for the same pair is rejected.
    pub fn subscribe(
        &mut self,
        key: &Key,
        client_id: ClientId,
        behaviour: WatcherBehaviour,
        activity: WatcherActivity,
    ) -> (r: Result<(), NetworkError>)
        requires
            old(self).wf(),
        ensures
            final(self).wf(),
            final(self).records == old(self).records,
            spec_find_sub(old(self).subs@, key@, client_id) is Some ==> r == Err::<
                (),
                NetworkError,
            >(NetworkError::SubscriptionExists) && final(self).subs == old(self).subs,
            spec_find_sub(old(self).subs@, key@, client_id) is None ==> {
                &&& r is Ok
                &&& final(self).subs@.len() == old(self).subs@.len() + 1
                &&& forall|j: int|
                    0 <= j < old(self).subs@.len() ==> final(self).subs@[j] == old(self).subs@[j]
                &&& final(self).subs@.last().0@ == key@
                &&& final(self).subs@.last().1 == client_id
                &&& final(self).subs@.last().2@ == {
                    let fresh = WatcherView {
                        ordered: behaviour is Ordered,
                        queue: Seq::empty(),
                        slot: None,
                        ready: false,
                        killed: false,
                    };
                    if activity is Kickback {
                        fresh.deposited(old(self).spec_get(key@)).signaled()
                    } else {
                        fresh
                    }
                }
            },
    {
        match self.find_sub_index(key, client_id) {
            Some(..) => Err(NetworkError::SubscriptionExists),
            None => {
                let mut server = Watcher::new(behaviour);
                if let WatcherActivity::Kickback = activity {
                    let current = self.get(key);
                    server.wake(current);
                }
                self.subs.push((key.duplicate(), client_id, server));
                proof {
                    let subs = final(self).subs@;
                    assert forall|x: int, y: int|
                        0 <= x < y < subs.len() implies !(subs[x].0@ == subs[y].0@ && subs[x].1
                        == subs[y].1) by {
                        if y == subs.len() - 1 {
                            if subs[x].0@ == key@ && subs[x].1 == client_id {
                                lemma_find_sub_at(old(self).subs@, key@, client_id, x);
                            }
                        }
                    }
                }
                Ok(())
            },
        }
    }

    /// Drops the subscription for `(key, client)`. Returns whether one was
    /// present; the dropped watcher's consumer thereafter reads as killed.
    pub fn release(&mut self, key: &Key, id: ClientId) -> (r: bool)
        requires
            old(self).wf(),
        ensures
            final(self).wf(),
            final(self).records == old(self).records,
            r == (spec_find_sub(old(self).subs@, key@, id) is Some),
            spec_find_sub(final(self).subs@, key@, id) is None,
            !r ==> final(self).subs == old(self).subs,
            r ==> final(self).subs@.len() == old(self).subs@.len() - 1,
    {
        match self.find_sub_index(key, id) {
            Some(i) => {
                self.subs.remove(i);
                proof {
                    let subs = final(self).subs@;
                    let orig = old(self).subs@;
                    assert forall|x: int, y: int|
                        0 <= x < y < subs.len() implies !(subs[x].0@ == subs[y].0@ && subs[x].1
                        == subs[y].1) by {
                        let xo: int = if x < i {
                            x
                        } else {
                            x + 1
                        };
                        let yo: int = if y < i {
                            y
                        } else {
                            y + 1
                        };
                        assert(subs[x] == orig[xo]);
                        assert(subs[y] == orig[yo]);
                    }
                    assert forall|j: int|
                        0 <= j < subs.len() implies !(subs[j].0@ == key@ && subs[j].1 == id) by {
                        let jo: int = if j < i {
                            j
                        } else {
                            j + 1
                        };
                        assert(subs[j] == orig[jo]);
                        if subs[j].0@ == key@ && subs[j].1 == id {
                            assert(!(orig[i as int].0@ == orig[jo].0@ && orig[i as int].1
                                == orig[jo].1));
                        }
                    }
                    lemma_find_sub_none(subs, key@, id);
                }
                true
            },
            None => false,
        }
    }

    /// Whether the subscription for `(key, client)` is killed; a missing
    /// subscription reads as killed, which is how a released subscriber's
    /// task learns to exit.
    pub fn watcher_is_killed(&self, key: &Key, client: ClientId) -> (r: bool)
        ensures
            r == match spec_find_sub(self.subs@, key@, client) {
                Option::Some(w) => w.killed,
                Option::None => true,
            },
    {
        match self.find_sub_index(key, client) {
            Some(i) => self.subs[i].2.is_killed(),
            None => true,
        }
    }

    /// One step of a subscriber's wait loop. Nothing comes back while the
    /// watcher holds no delivery and no signal; a missing subscription
    /// completes with an empty delivery, as a killed watcher does.
    pub fn watcher_poll(&mut self, key: &Key, client: ClientId) -> (r: Option<Option<Value>>)
        ensures
            final(self).records == old(self).records,
            final(self).subs@.len() == old(self).subs@.len(),
            forall|j: int|
                0 <= j < old(self).subs@.len() ==> final(self).subs@[j].0 == old(self).subs@[j].0
                    && final(self).subs@[j].1 == old(self).subs@[j].1,
            old(self).wf() ==> final(self).wf(),
            spec_find_sub(old(self).subs@, key@, client) is None ==> r == Some(
                None::<Value>,
            ) && final(self).subs == old(self).subs,
            spec_find_sub(old(self).subs@, key@, client) matches Some(w) && !w.can_complete()
                ==> r is None && final(self).subs == old(self).subs,
            spec_find_sub(old(self).subs@, key@, client) matches Some(w) && w.can_complete()
                ==> ({
                let w0 = spec_find_sub(old(self).subs@, key@, client)->Some_0;
                &&& (r matches Some(d) && d.deep_view() == w0.delivery())
                &&& spec_find_sub(final(self).subs@, key@, client) == Some(w0.after_wait())
            }),
    {
        match self.find_sub_index(key, client) {
            Some(i) => {
                if self.subs[i].2.poll_ready() {
                    let entry = &mut self.subs[i];
                    let d = entry.2.wait();
                    proof {
                        lemma_find_sub_at(self.subs@, key@, client, i as int);
                    }
                    Some(d)
                } else {
                    None
                }
            },
            None => Some(None),
        }
    }
}

/// The position of `key` in a record table, if bound.
fn table_find(entries: &Vec<(Key, Record)>, key: &Key) -> (r: Option<usize>)
    ensures
        r matches Some(i) ==> i < entries@.len() && entries@[i as int].0@ == key@
            && spec_find_value(entries@, key@) == Some(entries@[i as int].1.value@),
        r is None ==> spec_find_value(entries@, key@) is None,
{
    let n = entries.len();
    let mut i: usize = 0;
    while i < n
        invariant
            n == entries@.len(),
            i <= n,
            forall|j: int| 0 <= j < i ==> entries@[j].0@ != key@,
        decreases n - i,
    {
        if entries[i].0.matches(key) {
            proof {
                lemma_find_at(entries@, key@, i as int);
            }
            return Some(i);
        }
        i = i + 1;
    }
    proof {
        lemma_find_none_all(entries@, key@);
    }
    None
}

/// Whether a record table binds `key`.
pub fn table_contains(entries: &Vec<(Key, Record)>, key: &Key) -> (r: bool)
    ensures
        r == (spec_find_value(entries@, key@) is Some),
{
    match table_find(entries, key) {
        Some(..) => true,
        None => false,
    }
}

/// Binds `value` to `key` in a record table, replacing any current binding.
pub fn table_bind(entries: &mut Vec<(Key, Record)>, key: &Key, value: &Value)
    requires
        spec_keys_unique(old(entries)@),
    ensures
        spec_keys_unique(final(entries)@),
        spec_find_value(final(entries)@, key@) == Some(value@),
        forall|k2: Seq<char>|
            k2 != key@ ==> spec_find_value(final(entries)@, k2) == spec_find_value(
                old(entries)@,
                k2,
            ),
        final(entries)@.len() == if spec_find_value(old(entries)@, key@) is Some {
            old(entries)@.len() as int
        } else {
            old(entries)@.len() + 1 as int
        },
        forall|j: int|
            0 <= j < old(entries)@.len() ==> final(entries)@[j].0@ == old(entries)@[j].0@,
        forall|j: int|
            0 <= j < old(entries)@.len() && final(entries)@[j].1.value@ != old(
                entries,
            )@[j].1.value@ ==> final(entries)@[j].0@ == key@ && final(entries)@[j].1.value@
                == value@,
        spec_find_value(old(entries)@, key@) is None ==> final(entries)@.last().0@ == key@
            && final(entries)@.last().1.value@ == value@,
{
    let v = value.duplicate();
    match table_find(entries, key) {
        Some(i) => {
            let ghost es = entries@;
            proof {
                assert forall|k2: Seq<char>| true implies spec_find_value(
                    es.update(i as int, (es[i as int].0, Record { value: v })),
                    k2,
                ) == if k2 == es[i as int].0@ {
                    Some(v@)
                } else {
                    spec_find_value(es, k2)
                } by {
                    lemma_find_update(es, i as int, (es[i as int].0, Record { value: v }), k2);
                }
            }
            let entry = &mut entries[i];
            entry.1 = Record { value: v };
            proof {
                let now = entries@;
                assert forall|x: int, y: int|
                    0 <= x < y < now.len() implies now[x].0@ != now[y].0@ by {
                    assert(now[x].0@ == es[x].0@ && now[y].0@ == es[y].0@);
                }
            }
        },
        None => {
            let dup = key.duplicate();
            let rec = Record { value: v };
            let ghost es = entries@;
            let ghost e = (dup, rec);
            proof {
                assert forall|k2: Seq<char>| true implies spec_find_value(es.push(e), k2)
                    == if spec_find_value(es, k2) is Some {
                    spec_find_value(es, k2)
                } else if k2 == e.0@ {
                    Some(e.1.value@)
                } else {
                    None::<ValueView>
                } by {
                    lemma_find_push(es, e, k2);
                }
                lemma_find_none_converse(es, key@);
            }
            entries.push((dup, rec));
            proof {
                let now = entries@;
                assert forall|x: int, y: int|
                    0 <= x < y < now.len() implies now[x].0@ != now[y].0@ by {
                    if y == now.len() - 1 {
                        assert(now[x].0@ == es[x].0@);
                    } else {
                        assert(now[x].0@ == es[x].0@ && now[y].0@ == es[y].0@);
                    }
                }
            }
        },
    }
}

/// Unbinds `key` in a record table; a missing key is left alone.
pub fn table_unbind(entries: &mut Vec<(Key, Record)>, key: &Key)
    requires
        spec_keys_unique(old(entries)@),
    ensures
        spec_keys_unique(final(entries)@),
        spec_find_value(final(entries)@, key@) is None,
        forall|k2: Seq<char>|
            k2 != key@ ==> spec_find_value(final(entries)@, k2) == spec_find_value(
                old(entries)@,
                k2,
            ),
        final(entries)@.len() <= old(entries)@.len(),
        forall|j: int|
            0 <= j < final(entries)@.len() ==> exists|k: int|
                0 <= k < old(entries)@.len() && #[trigger] final(entries)@[j] == #[trigger] old(
                    entries,
                )@[k],
{
    match table_find(entries, key) {
        Some(i) => {
            let ghost es = entries@;
            proof {
                assert forall|k2: Seq<char>| true implies spec_find_value(
                    es.remove(i as int),
                    k2,
                ) == if k2 == es[i as int].0@ {
                    None::<ValueView>
                } else {
                    spec_find_value(es, k2)
                } by {
                    lemma_find_remove(es, i as int, k2);
                }
                assert forall|x: int, y: int|
                    0 <= x < y < es.remove(i as int).len() implies es.remove(i as int)[x].0@
                    != es.remove(i as int)[y].0@ by {
                    let rem = es.remove(i as int);
                    let xo: int = if x < i {
                        x
                    } else {
                        x + 1
                    };
                    let yo: int = if y < i {
                        y
                    } else {
                        y + 1
                    };
                    assert(rem[x] == es[xo]);
                    assert(rem[y] == es[yo]);
                }
            }
            entries.remove(i);
            proof {
                assert forall|j: int| 0 <= j < entries@.len() implies exists|k: int|
                    0 <= k < es.len() && #[trigger] entries@[j] == #[trigger] es[k] by {
                    if j < i {
                        assert(entries@[j] == es[j]);
                    } else {
                        assert(entries@[j] == es[j + 1]);
                    }
                }
            }
        },
        None => {},
    }
}

/// The store keeps no tombstones: it binds exactly as many keys as it has
/// records, and a key is bound exactly when `get` returns a value.
pub proof fn lemma_no_tombstones(db: MemoryDatabase)
    requires
        db.wf(),
    ensures
        spec_dom(db.records@).finite(),
        spec_dom(db.records@).len() == db.records@.len(),
        forall|k: Seq<char>| db.spec_get(k) is Some <==> spec_dom(db.records@).contains(k),
{
    lemma_dom_len(db.records@);
    assert forall|k: Seq<char>| true implies (db.spec_get(k) is Some <==> spec_dom(
        db.records@,
    ).contains(k)) by {
        lemma_find_in_dom(db.records@, k);
    }
}

} // verus!
