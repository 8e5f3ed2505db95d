//! The database: the in-memory store coordinated with the storage facade.
//!
//! Every mutation goes to the storage facade first and then to the memory
//! store, so an acknowledged mutation's bytes are already in the image the
//! caller persists. Reads come from memory. The two stay bound to the same
//! map.

use vstd::prelude::*;
use crate::access::{WatcherActivity, WatcherBehaviour};
use crate::errors::NetworkError;
use crate::keys::Key;
use crate::values::{Value, ValueView};
use crate::storage::DatabaseStorage;
use crate::store::{
    spec_find_value,
    lemma_find_push,
    lemma_find_none_converse,
    MemoryDatabase,
};
use crate::ClientId;

verus! {

/// The database: the memory backend and the storage backend.
pub struct Database {
    pub memory: MemoryDatabase,
    pub storage: DatabaseStorage,
}

impl Database {
    /// Well-formedness: both backends are well formed and bind the same
    /// map.
    pub open spec fn wf(self) -> bool {
        &&& self.memory.wf()
        &&& self.storage.wf()
        &&& forall|k: Seq<char>| self.memory.spec_get(k) == self.storage.spec_get(k)
    }

    /// What the database binds to `k`.
    pub open spec fn spec_get(self, k: Seq<char>) -> Option<ValueView> {
        self.memory.spec_get(k)
    }

    /// Builds the database over an opened storage facade, loading every
    /// stored record into memory for a warm start.
    pub fn new(storage: DatabaseStorage) -> (r: Self)
        requires
            storage.wf(),
        ensures
            r.wf(),
            r.storage == storage,
            forall|k: Seq<char>| r.spec_get(k) == storage.spec_get(k),
            r.memory.subs@.len() == 0,
    {
        let mut memory = MemoryDatabase::new();
        let n = storage.entries.len();
        let mut i: usize = 0;
        proof {
            assert(storage.entries@.take(0) =~= Seq::empty());
        }
        while i < n
            invariant
                n == storage.entries@.len(),
                i <= n,
                memory.wf(),
                memory.subs@.len() == 0,
                storage.wf(),
                forall|k: Seq<char>|
                    memory.spec_get(k) == spec_find_value(storage.entries@.take(i as int), k),
            decreases n - i,
        {
            let ghost prefix = storage.entries@.take(i as int);
            let key = storage.entries[i].0.duplicate();
            let value = storage.entries[i].1.value.duplicate();
            proof {
                assert(storage.entries@.take(i + 1) =~= prefix.push(storage.entries@[i as int]));
                assert forall|k: Seq<char>| true implies spec_find_value(
                    prefix.push(storage.entries@[i as int]),
                    k,
                ) == if spec_find_value(prefix, k) is Some {
                    spec_find_value(prefix, k)
                } else if k == storage.entries@[i as int].0@ {
                    Some(storage.entries@[i as int].1.value@)
                } else {
                    None::<ValueView>
                } by {
                    lemma_find_push(prefix, storage.entries@[i as int], k);
                }
                // A later entry never shadows an earlier one: keys are
                // unique, so the new key is absent from the prefix.
                assert(spec_find_value(prefix, storage.entries@[i as int].0@) is None) by {
                    assert forall|j: int|
                        0 <= j < prefix.len() implies prefix[j].0@ != storage.entries@[i as int].0@
                        by {
                        assert(storage.entries@[j].0@ != storage.entries@[i as int].0@);
                    }
                    crate::store::lemma_find_none(prefix, storage.entries@[i as int].0@);
                }
            }
            memory.insert(key, value);
            i = i + 1;
        }
        proof {
            assert(storage.entries@.take(n as int) =~= storage.entries@);
        }
        Self { memory, storage }
    }

    /// The current value of a key, or nothing.
    pub fn get(&self, key: &Key) -> (r: Option<Value>)
        ensures
            r.deep_view() == self.spec_get(key@),
    {
        self.memory.get(key)
    }

    /// Binds `value` to `key` in both backends, then notifies the key's
    /// watchers of the new value.
    pub fn insert(&mut self, key: Key, value: Value) -> (r: Result<(), NetworkError>)
        requires
            old(self).wf(),
        ensures
            crate::storage::spec_pair_fits(key@, value@) && old(self).storage.entries@.len() + 4
                <= crate::storage::spec_page_limit() ==> r is Ok,
            final(self).wf(),
            r is Err ==> final(self).memory.subs == old(self).memory.subs && (forall|
                k2: Seq<char>,
            | final(self).spec_get(k2) == old(self).spec_get(k2)),
            r is Ok ==> final(self).spec_get(key@) == Some(value@),
            r is Ok ==> forall|k2: Seq<char>|
                k2 != key@ ==> final(self).spec_get(k2) == old(self).spec_get(k2),
            final(self).memory.subs@.len() == old(self).memory.subs@.len(),
            r is Ok ==> forall|j: int|
                0 <= j < old(self).memory.subs@.len() ==> {
                    &&& final(self).memory.subs@[j].0 == old(self).memory.subs@[j].0
                    &&& final(self).memory.subs@[j].1 == old(self).memory.subs@[j].1
                    &&& if old(self).memory.subs@[j].0@ == key@ {
                        final(self).memory.subs@[j].2@ == old(self).memory.subs@[j].2@.deposited(
                            Some(value@),
                        ).signaled()
                    } else {
                        final(self).memory.subs@[j].2 == old(self).memory.subs@[j].2
                    }
                },
    {
        match self.storage.write(&key, &value) {
            Ok(..) => {},
            Err(e) => {
                return Err(e);
            },
        }
        self.memory.insert(key, value);
        Ok(())
    }

    /// Unbinds `key` in both backends; if it was bound, notifies the key's
    /// watchers of the deletion.
    pub fn delete(&mut self, key: &Key) -> (r: Result<(), NetworkError>)
        requires
            old(self).wf(),
        ensures
            r is Ok,
            final(self).wf(),
            final(self).spec_get(key@) is None,
            forall|k2: Seq<char>| k2 != key@ ==> final(self).spec_get(k2) == old(self).spec_get(k2),
            final(self).memory.subs@.len() == old(self).memory.subs@.len(),
            forall|j: int|
                0 <= j < old(self).memory.subs@.len() ==> {
                    &&& final(self).memory.subs@[j].0 == old(self).memory.subs@[j].0
                    &&& final(self).memory.subs@[j].1 == old(self).memory.subs@[j].1
                    &&& if old(self).spec_get(key@) is Some && old(self).memory.subs@[j].0@ == key@ {
                        final(self).memory.subs@[j].2@ == old(self).memory.subs@[j].2@.deposited(
                            None,
                        ).signaled()
                    } else {
                        final(self).memory.subs@[j].2 == old(self).memory.subs@[j].2
                    }
                },
    {
        match self.storage.delete(key) {
            Ok(..) => {},
            Err(e) => {
                return Err(e);
            },
        }
        self.memory.delete(key);
        Ok(())
    }

    /// Drops the subscription for `(key, client)`.
    pub fn release(&mut self, key: &Key, id: ClientId) -> (r: Result<(), NetworkError>)
        requires
            old(self).wf(),
        ensures
            r is Ok,
            final(self).wf(),
            final(self).storage == old(self).storage,
            crate::store::spec_find_sub(final(self).memory.subs@, key@, id) is None,
    {
        self.memory.release(key, id);
        Ok(())
    }

    /// Registers a watcher for `(key, client)`; a second subscription for
    /// the same pair is rejected.
    pub fn subscribe(
        &mut self,
        key: &Key,
        client: ClientId,
        behaviour: WatcherBehaviour,
        activity: WatcherActivity,
    ) -> (r: Result<(), NetworkError>)
        requires
            old(self).wf(),
        ensures
            final(self).wf(),
            final(self).storage == old(self).storage,
            crate::store::spec_find_sub(old(self).memory.subs@, key@, client) is Some ==> r
                == Err::<(), NetworkError>(NetworkError::SubscriptionExists) && final(self).memory.subs
                == old(self).memory.subs,
            crate::store::spec_find_sub(old(self).memory.subs@, key@, client) is None ==> r is Ok
                && final(self).memory.subs@.len() == old(self).memory.subs@.len() + 1,
    {
        self.memory.subscribe(key, client, behaviour, activity)
    }

    /// Whether the subscription for `(key, client)` is killed; a missing
    /// one reads as killed.
    pub fn watcher_is_killed(&self, key: &Key, client: ClientId) -> (r: bool)
        ensures
            r == match crate::store::spec_find_sub(self.memory.subs@, key@, client) {
                Option::Some(w) => w.killed,
                Option::None => true,
            },
    {
        self.memory.watcher_is_killed(key, client)
    }

    /// One step of a subscriber's wait loop; see the memory store.
    pub fn watcher_poll(&mut self, key: &Key, client: ClientId) -> (r: Option<Option<Value>>)
        requires
            old(self).wf(),
        ensures
            final(self).wf(),
            final(self).storage == old(self).storage,
            crate::store::spec_find_sub(old(self).memory.subs@, key@, client) is None ==> r
                == Some(None::<Value>) && final(self).memory.subs == old(self).memory.subs,
            crate::store::spec_find_sub(old(self).memory.subs@, key@, client) matches Some(w)
                && !w.can_complete() ==> r is None && final(self).memory.subs == old(
                self,
            ).memory.subs,
            crate::store::spec_find_sub(old(self).memory.subs@, key@, client) matches Some(w)
                && w.can_complete() ==> ({
                let w0 = crate::store::spec_find_sub(old(self).memory.subs@, key@, client)->Some_0;
                &&& (r matches Some(d) && d.deep_view() == w0.delivery())
                &&& crate::store::spec_find_sub(final(self).memory.subs@, key@, client) == Some(
                    w0.after_wait(),
                )
            }),
    {
        self.memory.watcher_poll(key, client)
    }

    /// The storage image to persist.
    pub fn image_bytes(&self) -> (r: &Vec<u8>)
        ensures
            r == &self.storage.file.data,
    {
        self.storage.image_bytes()
    }
}

} // verus!
