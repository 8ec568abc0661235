//! The inventory service: identifier allocation, validation, timestamping,
//! and the four record operations, layered on the durable keyed store.
//!
//! The service owns the store exclusively. Its model is the map `items()`
//! from identifiers to decoded records together with the counter
//! `counter()`, the last identifier allocated. Operations take the current
//! clock reading as an argument; the transport layer around the library
//! supplies it.

use vstd::prelude::*;

use crate::codec::decode_item;
use crate::codec::encode_item;
use crate::codec::lemma_encode_decode;
use crate::codec::records_consistent;
use crate::codec::spec_decode;
use crate::codec::spec_encode;
use crate::item::payload_error;
use crate::item::payload_valid;
use crate::item::validate_payload;
use crate::item::Error;
use crate::item::InventoryItem;
use crate::item::InventoryPayload;
use crate::item::ItemModel;
use crate::item::StorageFault;
use crate::item::MAX_RECORD_BYTES;
use crate::item::RECORD_PREFIX_BYTES;
use crate::store::store_counter;
use crate::store::store_records;
use crate::store::Store;

verus! {

/// The inventory service over its durable store.
pub struct Inventory {
    store: Store,
}

impl Inventory {
    /// The raw record map of the underlying store.
    pub closed spec fn records(self) -> Map<u64, Seq<u8>> {
        store_records(self.store)
    }

    /// The last identifier allocated; zero when none has been.
    pub closed spec fn counter(self) -> u64 {
        store_counter(self.store)
    }

    /// The items the service holds: each stored record, decoded.
    pub open spec fn items(self) -> Map<u64, ItemModel> {
        Map::new(
            |k: u64| self.records().contains_key(k),
            |k: u64| spec_decode(self.records()[k]).unwrap(),
        )
    }

    /// Well-formedness: every stored record is the encoding of a well-formed
    /// item that is keyed by its own identifier, and no stored identifier
    /// exceeds the counter (so none is ever allocated twice).
    pub open spec fn wf(self) -> bool {
        records_consistent(self.records(), self.counter())
    }

    /// Opens the service over the durable store. A fresh backing memory
    /// yields the empty inventory with no identifier allocated; a restored
    /// one yields the state a previous run persisted. Either way the state
    /// is well-formed, so every guarantee below — ids keyed correctly,
    /// never exceeding the counter, and so never reallocated — carries
    /// across restarts.
    pub fn open() -> (inv: Inventory)
        ensures
            inv.wf(),
    {
        Inventory { store: Store::open() }
    }

    /// Looks the identifier up. Returns the item stored under it, or
    /// `NotFound` carrying the identifier when nothing is.
    pub fn get_item(&self, id: u64) -> (r: Result<InventoryItem, Error>)
        requires
            self.wf(),
        ensures
            match r {
                Ok(item) => self.items().contains_key(id) && item@ == self.items()[id],
                Err(e) => !self.items().contains_key(id) && e == (Error::NotFound { id }),
            },
    {
        match self.store.get(id) {
            Some(bytes) => {
                let item = decode_item(&bytes);
                Ok(item.unwrap())
            },
            None => Err(Error::NotFound { id }),
        }
    }
    /// Returns every item the service holds, in ascending identifier order,
    /// each exactly once, without mutating anything.
    pub fn list_items(&self) -> (r: Vec<InventoryItem>)
        requires
            self.wf(),
        ensures
            forall|i: int|
                0 <= i < r@.len() ==> self.items().contains_key(#[trigger] r@[i]@.id)
                    && r@[i]@ == self.items()[r@[i]@.id],
            forall|i: int, j: int| 0 <= i < j < r@.len() ==> r@[i]@.id < r@[j]@.id,
            forall|k: u64|
                self.items().contains_key(k) ==> exists|i: int|
                    0 <= i < r@.len() && (#[trigger] r@[i]@.id) == k,
    {
        let entries = self.store.entries();
        let mut out: Vec<InventoryItem> = Vec::new();
        let mut i: usize = 0;
        while i < entries.len()
            invariant
                self.wf(),
                i <= entries@.len(),
                out@.len() == i,
                forall|j: int|
                    0 <= j < entries@.len() ==> self.records().contains_key(
                        #[trigger] entries@[j].0,
                    ) && entries@[j].1@ == self.records()[entries@[j].0],
                forall|j: int, l: int|
                    0 <= j < l < entries@.len() ==> entries@[j].0 < entries@[l].0,
                forall|k: u64|
                    self.records().contains_key(k) ==> exists|j: int|
                        0 <= j < entries@.len() && (#[trigger] entries@[j].0) == k,
                forall|j: int| 0 <= j < i ==> (#[trigger] out@[j]@.id) == entries@[j].0,
                forall|j: int|
                    0 <= j < i ==> self.items().contains_key(#[trigger] out@[j]@.id)
                        && out@[j]@ == self.items()[out@[j]@.id],
            decreases entries@.len() - i,
        {
            let (key, bytes) = &entries[i];
            let item = decode_item(bytes).unwrap();
            proof {
                assert(item@.id == *key);
            }
            out.push(item);
            i += 1;
        }
        proof {
            assert forall|k: u64| self.items().contains_key(k) implies exists|i: int|
                0 <= i < out@.len() && (#[trigger] out@[i]@.id) == k by {
                let j = choose|j: int| 0 <= j < entries@.len() && (#[trigger] entries@[j].0) == k;
                assert(out@[j]@.id == k);
            }
        }
        out
    }

    /// Creates a record. Validates the payload, allocates the next
    /// identifier by advancing the counter, stamps the record with `now`,
    /// persists it, and returns it. On any failure the store is left
    /// untouched; a successful creation is owed whenever the payload is
    /// valid, its record fits the size bound, and the counter is not
    /// exhausted.
    pub fn add_item(&mut self, payload: InventoryPayload, now: u64) -> (r: Result<
        InventoryItem,
        Error,
    >)
        requires
            old(self).wf(),
        ensures
            final(self).wf(),
            final(self).counter() >= old(self).counter(),
            match r {
                Ok(item) => {
                    &&& payload_valid(payload@)
                    &&& item@.id == old(self).counter() + 1
                    &&& item@.name == payload@.name
                    &&& item@.quantity == payload@.quantity
                    &&& item@.price_bits == payload@.price_bits
                    &&& item@.created_at == now
                    &&& item@.updated_at is None
                    &&& final(self).counter() == old(self).counter() + 1
                    &&& final(self).items() == old(self).items().insert(item@.id, item@)
                },
                Err(e) => {
                    &&& final(self).items() == old(self).items()
                    &&& final(self).counter() == old(self).counter()
                    &&& match e {
                        Error::InvalidInput { field } => payload_error(payload@) == Some(field),
                        Error::StorageFailure { fault } => payload_valid(payload@) && match fault {
                            StorageFault::RecordTooLarge => RECORD_PREFIX_BYTES + payload@.name.len()
                                > MAX_RECORD_BYTES,
                            StorageFault::CounterExhausted => RECORD_PREFIX_BYTES
                                + payload@.name.len() <= MAX_RECORD_BYTES && old(self).counter()
                                == u64::MAX,
                        },
                        Error::NotFound { .. } => false,
                    }
                },
            },
            (payload_valid(payload@) && RECORD_PREFIX_BYTES + payload@.name.len()
                <= MAX_RECORD_BYTES && old(self).counter() < u64::MAX) ==> r is Ok,
    {
        if let Err(e) = validate_payload(&payload) {
            return Err(e);
        }
        if payload.name.len() > MAX_RECORD_BYTES - RECORD_PREFIX_BYTES {
            return Err(Error::StorageFailure { fault: StorageFault::RecordTooLarge });
        }
        let c = self.store.counter_get();
        if c == u64::MAX {
            return Err(Error::StorageFailure { fault: StorageFault::CounterExhausted });
        }
        let id = c + 1;
        self.store.counter_set(id);
        let item = InventoryItem {
            id,
            name: payload.name,
            quantity: payload.quantity,
            price_bits: payload.price_bits,
            created_at: now,
            updated_at: None,
        };
        let bytes = encode_item(&item);
        self.store.insert(id, bytes);
        proof {
            lemma_encode_decode(item@);
            assert(self.records() == old(self).records().insert(id, spec_encode(item@)));
            assert(self.items() =~= old(self).items().insert(id, item@));
        }
        Ok(item)
    }

    /// Overwrites the payload fields of the record stored under `id` and
    /// stamps it updated at `now`; the identifier and the creation timestamp
    /// are kept. Validation failure, an unknown identifier, or an oversized
    /// record leaves the store untouched; success is owed whenever the
    /// payload is valid, the identifier is present, and the record fits.
    pub fn update_item(&mut self, id: u64, payload: InventoryPayload, now: u64) -> (r: Result<
        InventoryItem,
        Error,
    >)
        requires
            old(self).wf(),
        ensures
            final(self).wf(),
            final(self).counter() == old(self).counter(),
            match r {
                Ok(item) => {
                    &&& payload_valid(payload@)
                    &&& old(self).items().contains_key(id)
                    &&& item@.id == id
                    &&& item@.created_at == old(self).items()[id].created_at
                    &&& item@.updated_at == Some(now)
                    &&& item@.name == payload@.name
                    &&& item@.quantity == payload@.quantity
                    &&& item@.price_bits == payload@.price_bits
                    &&& final(self).items() == old(self).items().insert(id, item@)
                },
                Err(e) => {
                    &&& final(self).items() == old(self).items()
                    &&& match e {
                        Error::InvalidInput { field } => payload_error(payload@) == Some(field),
                        Error::NotFound { id: missing } => missing == id && payload_valid(payload@)
                            && !old(self).items().contains_key(id),
                        Error::StorageFailure { fault } => fault == StorageFault::RecordTooLarge
                            && payload_valid(payload@) && old(self).items().contains_key(id)
                            && RECORD_PREFIX_BYTES + payload@.name.len() > MAX_RECORD_BYTES,
                    }
                },
            },
            (payload_valid(payload@) && old(self).items().contains_key(id) && RECORD_PREFIX_BYTES
                + payload@.name.len() <= MAX_RECORD_BYTES) ==> r is Ok,
    {
        if let Err(e) = validate_payload(&payload) {
            return Err(e);
        }
        let prior = match self.store.get(id) {
            Some(bytes) => decode_item(&bytes).unwrap(),
            None => {
                return Err(Error::NotFound { id });
            },
        };
        if payload.name.len() > MAX_RECORD_BYTES - RECORD_PREFIX_BYTES {
            return Err(Error::StorageFailure { fault: StorageFault::RecordTooLarge });
        }
        let item = InventoryItem {
            id,
            name: payload.name,
            quantity: payload.quantity,
            price_bits: payload.price_bits,
            created_at: prior.created_at,
            updated_at: Some(now),
        };
        let bytes = encode_item(&item);
        self.store.insert(id, bytes);
        proof {
            lemma_encode_decode(item@);
            assert(self.records() == old(self).records().insert(id, spec_encode(item@)));
            assert(self.items() =~= old(self).items().insert(id, item@));
        }
        Ok(item)
    }

    /// Removes the record stored under `id` and returns it; `NotFound`
    /// carrying the identifier when nothing is stored there. The counter is
    /// untouched, so a deleted identifier is never allocated again.
    pub fn delete_item(&mut self, id: u64) -> (r: Result<InventoryItem, Error>)
        requires
            old(self).wf(),
        ensures
            final(self).wf(),
            final(self).counter() == old(self).counter(),
            match r {
                Ok(item) => {
                    &&& old(self).items().contains_key(id)
                    &&& item@ == old(self).items()[id]
                    &&& final(self).items() == old(self).items().remove(id)
                },
                Err(e) => {
                    &&& !old(self).items().contains_key(id)
                    &&& e == (Error::NotFound { id })
                    &&& final(self).items() == old(self).items()
                },
            },
    {
        match self.store.remove(id) {
            Some(bytes) => {
                let item = decode_item(&bytes).unwrap();
                proof {
                    assert(self.items() =~= old(self).items().remove(id));
                }
                Ok(item)
            },
            None => {
                proof {
                    assert(self.items() =~= old(self).items());
                }
                Err(Error::NotFound { id })
            },
        }
    }
}

/// Every identifier a well-formed service holds was allocated: it is at
/// least one and at most the counter.
pub proof fn lemma_held_ids_bounded(inv: Inventory, id: u64)
    requires
        inv.wf(),
        inv.items().contains_key(id),
    ensures
        1 <= id <= inv.counter(),
{
}

/// Uniqueness of allocated identifiers: consider two successful creations,
/// the first from a service whose counter reads `c1`, the second from one
/// whose counter reads `c2`, the second no earlier than the first — every
/// operation keeps the counter from decreasing, and the first creation
/// advanced it past `c1`, so `c2 > c1`. Each creation returns the counter's
/// successor, so the identifiers are strictly increasing and in particular
/// pairwise distinct, whatever operations ran in between.
pub proof fn lemma_created_ids_distinct(c1: u64, c2: u64)
    requires
        c1 < u64::MAX,
        c2 < u64::MAX,
        c2 > c1,
    ensures
        c2 + 1 > c1 + 1,
        c2 + 1 != c1 + 1,
{
}

/// No identifier is reused after deletion: an identifier held by a
/// well-formed service is at most its counter, deletion leaves the counter
/// unchanged, no operation decreases it, and a later creation returns the
/// later counter's successor — strictly greater than the deleted
/// identifier.
pub proof fn lemma_no_id_reuse(at_delete: Inventory, deleted_id: u64, later_counter: u64)
    requires
        at_delete.wf(),
        at_delete.items().contains_key(deleted_id),
        later_counter >= at_delete.counter(),
        later_counter < u64::MAX,
    ensures
        later_counter + 1 > deleted_id,
        later_counter + 1 != deleted_id,
{
    lemma_held_ids_bounded(at_delete, deleted_id);
}

/// An update never changes the identity fields and moves the update
/// timestamp forward: provided the clock reading handed to `update_item` is
/// no earlier than the record's creation and any earlier update — the
/// transport's clock readings do not go backwards — the updated record
/// keeps `id` and `created_at` and carries an update timestamp at least as
/// late as whatever stood before.
pub proof fn lemma_update_preserves_identity(
    before: ItemModel,
    after: ItemModel,
    now: u64,
)
    requires
        after.id == before.id,
        after.created_at == before.created_at,
        after.updated_at == Some(now),
        now >= before.created_at,
        before.updated_at matches Some(t) ==> now >= t,
    ensures
        after.updated_at matches Some(t) && t >= before.created_at,
        before.updated_at matches Some(t0) ==> (after.updated_at matches Some(t) && t >= t0),
{
}

} // verus!
