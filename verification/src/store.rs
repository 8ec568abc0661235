//! The durable keyed store: an ordered map from `u64` keys to encoded record
//! bytes, with a companion scalar cell for the identifier counter. Both are
//! held in `ic_stable_structures` containers behind trusted wrappers; the
//! spec names `store_records` and `store_counter` stand for their contents.

use vstd::prelude::*;

use crate::codec::records_consistent;

verus! {

/// The record map a `Store` holds: each present key mapped to the bytes
/// stored under it.
pub uninterp spec fn store_records(s: Store) -> Map<u64, Seq<u8>>;

/// The value the counter cell of a `Store` holds.
pub uninterp spec fn store_counter(s: Store) -> u64;

/// The durable keyed store. The map and the cell live in stable-structure
/// containers, each over its own virtual memory carved out of the one
/// backing memory by a `MemoryManager`; Verus sees them only through
/// `store_records` and `store_counter` and the contracts of the methods
/// below.
#[verifier::external_body]
pub struct Store {
    records: ic_stable_structures::StableBTreeMap<
        u64,
        Vec<u8>,
        ic_stable_structures::memory_manager::VirtualMemory<
            ic_stable_structures::DefaultMemoryImpl,
        >,
    >,
    counter: ic_stable_structures::Cell<
        u64,
        ic_stable_structures::memory_manager::VirtualMemory<
            ic_stable_structures::DefaultMemoryImpl,
        >,
    >,
}

impl Store {
    /// Opens the durable store over the process's backing memory: a fresh
    /// memory yields the empty map and a zero counter, a restored one yields
    /// the persisted state.
    ///
    /// Relies on `ic_stable_structures::memory_manager::MemoryManager`
    /// (`init`, `get`): the two `MemoryId`s address disjoint virtual
    /// memories over the one backing memory, so the cell and the map never
    /// overlap. Relies on `BTreeMap::init` and `Cell::init`: each restores
    /// what its region holds, and a fresh region gives the empty map
    /// respectively the initial zero. The contract claims no more than
    /// consistency, because the backing memory may be a restored one: these
    /// two regions are written only through this store, so a restored state
    /// is one that the service's own operations persisted, and those keep it
    /// consistent. Corruption of the backing memory is left aside, as is its
    /// exhaustion.
    #[verifier::external_body]
    pub fn open() -> (s: Store)
        ensures
            records_consistent(store_records(s), store_counter(s)),
    {
        let manager = ic_stable_structures::memory_manager::MemoryManager::init(
            ic_stable_structures::DefaultMemoryImpl::default(),
        );
        Store {
            counter: ic_stable_structures::Cell::init(
                manager.get(ic_stable_structures::memory_manager::MemoryId::new(0)),
                0,
            ),
            records: ic_stable_structures::StableBTreeMap::init(
                manager.get(ic_stable_structures::memory_manager::MemoryId::new(1)),
            ),
        }
    }

    /// Relies on `ic_stable_structures::BTreeMap::get`: a point lookup that
    /// returns the value stored under the key, or `None` when the key is
    /// unset, without side effects.
    #[verifier::external_body]
    pub fn get(&self, key: u64) -> (r: Option<Vec<u8>>)
        ensures
            match r {
                Some(v) => store_records(*self).contains_key(key) && v@ == store_records(
                    *self,
                )[key],
                None => !store_records(*self).contains_key(key),
            },
    {
        self.records.get(&key)
    }

    /// Relies on `ic_stable_structures::BTreeMap::insert`: stores the value
    /// under the key, silently replacing and returning any previous value.
    #[verifier::external_body]
    pub fn insert(&mut self, key: u64, value: Vec<u8>) -> (r: Option<Vec<u8>>)
        ensures
            store_records(*final(self)) == store_records(*old(self)).insert(key, value@),
            store_counter(*final(self)) == store_counter(*old(self)),
            match r {
                Some(v) => store_records(*old(self)).contains_key(key) && v@ == store_records(
                    *old(self),
                )[key],
                None => !store_records(*old(self)).contains_key(key),
            },
    {
        self.records.insert(key, value)
    }

    /// Relies on `ic_stable_structures::BTreeMap::remove`: deletes the key
    /// and returns the prior value, or `None` when the key was unset.
    #[verifier::external_body]
    pub fn remove(&mut self, key: u64) -> (r: Option<Vec<u8>>)
        ensures
            store_records(*final(self)) == store_records(*old(self)).remove(key),
            store_counter(*final(self)) == store_counter(*old(self)),
            match r {
                Some(v) => store_records(*old(self)).contains_key(key) && v@ == store_records(
                    *old(self),
                )[key],
                None => !store_records(*old(self)).contains_key(key),
            },
    {
        self.records.remove(&key)
    }

    /// Relies on `ic_stable_structures::BTreeMap::iter`: a full iteration
    /// yields every entry of the map exactly once, in ascending key order.
    /// The result holds each present key paired with its stored bytes.
    #[verifier::external_body]
    pub fn entries(&self) -> (r: Vec<(u64, Vec<u8>)>)
        ensures
            forall|i: int|
                0 <= i < r@.len() ==> store_records(*self).contains_key(#[trigger] r@[i].0)
                    && r@[i].1@ == store_records(*self)[r@[i].0],
            forall|i: int, j: int| 0 <= i < j < r@.len() ==> r@[i].0 < r@[j].0,
            forall|k: u64|
                store_records(*self).contains_key(k) ==> exists|i: int|
                    0 <= i < r@.len() && (#[trigger] r@[i].0) == k,
    {
        self.records.iter().map(|e| e.into_pair()).collect()
    }

    /// Relies on `ic_stable_structures::Cell::get`: returns the value the
    /// cell holds, without side effects.
    #[verifier::external_body]
    pub fn counter_get(&self) -> (r: u64)
        ensures
            r == store_counter(*self),
    {
        *self.counter.get()
    }

    /// Relies on `ic_stable_structures::Cell::set`: writes the value
    /// durably and keeps it in the cell. For a fixed-size `u64` value on the
    /// vector-backed memory the write always fits, so the call returns
    /// normally and only the cell changes.
    #[verifier::external_body]
    pub fn counter_set(&mut self, v: u64)
        ensures
            store_counter(*final(self)) == v,
            store_records(*final(self)) == store_records(*old(self)),
    {
        self.counter.set(v);
    }
}

} // verus!
