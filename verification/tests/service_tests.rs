use inventory_store::codec::decode_item;
use inventory_store::codec::encode_item;
use inventory_store::Error;
use inventory_store::Inventory;
use inventory_store::InventoryItem;
use inventory_store::InventoryPayload;
use inventory_store::PayloadField;
use inventory_store::StorageFault;

fn payload(name: &str, quantity: u32, price: f64) -> InventoryPayload {
    InventoryPayload {
        name: name.as_bytes().to_vec(),
        quantity,
        price_bits: price.to_bits(),
    }
}

const T0: u64 = 1_700_000_000_000_000_000;
const T1: u64 = 1_700_000_001_000_000_000;
const T2: u64 = 1_700_000_002_000_000_000;

#[test]
fn add_first_item_gets_id_one() {
    let mut inv = Inventory::open();
    let item = inv.add_item(payload("Widget", 10, 2.5), T0).unwrap();
    assert_eq!(item.id, 1);
    assert_eq!(item.name, b"Widget".to_vec());
    assert_eq!(item.quantity, 10);
    assert_eq!(item.price_bits, (2.5f64).to_bits());
    assert_eq!(item.created_at, T0);
    assert_eq!(item.updated_at, None);
}

#[test]
fn get_returns_the_stored_item() {
    let mut inv = Inventory::open();
    let added = inv.add_item(payload("Widget", 10, 2.5), T0).unwrap();
    let fetched = inv.get_item(1).unwrap();
    assert_eq!(fetched, added);
}

#[test]
fn update_overwrites_payload_and_keeps_identity() {
    let mut inv = Inventory::open();
    inv.add_item(payload("Widget", 10, 2.5), T0).unwrap();
    let updated = inv.update_item(1, payload("Widget", 5, 3.0), T1).unwrap();
    assert_eq!(updated.id, 1);
    assert_eq!(updated.quantity, 5);
    assert_eq!(updated.price_bits, (3.0f64).to_bits());
    assert_eq!(updated.created_at, T0);
    assert_eq!(updated.updated_at, Some(T1));
    assert_eq!(inv.get_item(1).unwrap(), updated);
}

#[test]
fn update_timestamps_do_not_go_backwards() {
    let mut inv = Inventory::open();
    inv.add_item(payload("Widget", 10, 2.5), T0).unwrap();
    let first = inv.update_item(1, payload("Widget", 5, 3.0), T1).unwrap();
    let second = inv.update_item(1, payload("Widget", 4, 3.5), T2).unwrap();
    assert!(first.updated_at.unwrap() >= first.created_at);
    assert!(second.updated_at.unwrap() >= first.updated_at.unwrap());
    assert_eq!(second.created_at, T0);
}

#[test]
fn delete_returns_item_and_get_reports_not_found() {
    let mut inv = Inventory::open();
    let added = inv.add_item(payload("Widget", 10, 2.5), T0).unwrap();
    let removed = inv.delete_item(1).unwrap();
    assert_eq!(removed, added);
    assert_eq!(inv.get_item(1).unwrap_err(), Error::NotFound { id: 1 });
    assert_eq!(inv.delete_item(1).unwrap_err(), Error::NotFound { id: 1 });
}

#[test]
fn empty_name_is_invalid_and_store_is_unchanged() {
    let mut inv = Inventory::open();
    let err = inv.add_item(payload("", 1, 1.0), T0).unwrap_err();
    assert_eq!(err, Error::InvalidInput { field: PayloadField::Name });
    assert!(inv.list_items().is_empty());
}

#[test]
fn zero_quantity_is_invalid() {
    let mut inv = Inventory::open();
    let err = inv.add_item(payload("Widget", 0, 1.0), T0).unwrap_err();
    assert_eq!(err, Error::InvalidInput { field: PayloadField::Quantity });
    assert!(inv.list_items().is_empty());
}

#[test]
fn non_positive_prices_are_invalid() {
    let mut inv = Inventory::open();
    for bad in [0.0, -0.0, -1.0, -f64::INFINITY, f64::NAN] {
        let err = inv.add_item(payload("Widget", 1, bad), T0).unwrap_err();
        assert_eq!(err, Error::InvalidInput { field: PayloadField::Price });
    }
    assert!(inv.list_items().is_empty());
}

#[test]
fn positive_prices_pass_validation() {
    let mut inv = Inventory::open();
    for good in [f64::MIN_POSITIVE, 0.01, 2.5, 1.0e300, f64::INFINITY] {
        assert!(inv.add_item(payload("Widget", 1, good), T0).is_ok());
    }
}

#[test]
fn invalid_update_leaves_record_unchanged() {
    let mut inv = Inventory::open();
    let added = inv.add_item(payload("Widget", 10, 2.5), T0).unwrap();
    let err = inv.update_item(1, payload("Widget", 0, 2.5), T1).unwrap_err();
    assert_eq!(err, Error::InvalidInput { field: PayloadField::Quantity });
    assert_eq!(inv.get_item(1).unwrap(), added);
}

#[test]
fn update_of_missing_id_reports_not_found() {
    let mut inv = Inventory::open();
    let err = inv.update_item(7, payload("Widget", 1, 1.0), T0).unwrap_err();
    assert_eq!(err, Error::NotFound { id: 7 });
}

#[test]
fn deleted_id_is_never_reallocated() {
    let mut inv = Inventory::open();
    let first = inv.add_item(payload("Widget", 10, 2.5), T0).unwrap();
    assert_eq!(first.id, 1);
    inv.delete_item(1).unwrap();
    let second = inv.add_item(payload("Gadget", 1, 1.0), T1).unwrap();
    assert_eq!(second.id, 2);
    assert_eq!(inv.get_item(1).unwrap_err(), Error::NotFound { id: 1 });
}

#[test]
fn ids_are_distinct_and_increasing() {
    let mut inv = Inventory::open();
    let mut ids = Vec::new();
    for i in 0..5u32 {
        let item = inv.add_item(payload("Widget", i + 1, 1.5), T0 + i as u64).unwrap();
        ids.push(item.id);
    }
    inv.delete_item(3).unwrap();
    ids.push(inv.add_item(payload("Widget", 9, 1.5), T1).unwrap().id);
    for w in ids.windows(2) {
        assert!(w[0] < w[1]);
    }
    assert_eq!(ids, vec![1, 2, 3, 4, 5, 6]);
}

#[test]
fn list_returns_items_in_ascending_id_order() {
    let mut inv = Inventory::open();
    inv.add_item(payload("A", 1, 1.0), T0).unwrap();
    inv.add_item(payload("B", 2, 2.0), T0).unwrap();
    inv.add_item(payload("C", 3, 3.0), T0).unwrap();
    inv.delete_item(2).unwrap();
    let listed = inv.list_items();
    let ids: Vec<u64> = listed.iter().map(|it| it.id).collect();
    assert_eq!(ids, vec![1, 3]);
    assert_eq!(listed[0], inv.get_item(1).unwrap());
    assert_eq!(listed[1], inv.get_item(3).unwrap());
}

#[test]
fn oversized_name_is_a_storage_failure_and_allocates_nothing() {
    let mut inv = Inventory::open();
    inv.add_item(payload("Widget", 1, 1.0), T0).unwrap();
    let huge = "x".repeat(2000);
    let err = inv.add_item(payload(&huge, 1, 1.0), T0).unwrap_err();
    assert_eq!(err, Error::StorageFailure { fault: StorageFault::RecordTooLarge });
    let err = inv.update_item(1, payload(&huge, 1, 1.0), T1).unwrap_err();
    assert_eq!(err, Error::StorageFailure { fault: StorageFault::RecordTooLarge });
    assert_eq!(inv.list_items().len(), 1);
    let next = inv.add_item(payload("Gadget", 1, 1.0), T1).unwrap();
    assert_eq!(next.id, 2);
}

#[test]
fn encode_decode_round_trip() {
    let fresh = InventoryItem {
        id: 1,
        name: b"Widget".to_vec(),
        quantity: 10,
        price_bits: (2.5f64).to_bits(),
        created_at: T0,
        updated_at: None,
    };
    assert_eq!(decode_item(&encode_item(&fresh)).unwrap(), fresh);
    let updated = InventoryItem {
        id: u64::MAX,
        name: vec![0u8, 255u8, 7u8],
        quantity: u32::MAX,
        price_bits: f64::INFINITY.to_bits(),
        created_at: 0,
        updated_at: Some(u64::MAX),
    };
    assert_eq!(decode_item(&encode_item(&updated)).unwrap(), updated);
}

#[test]
fn encoding_is_not_the_identity_on_the_name() {
    let item = InventoryItem {
        id: 3,
        name: b"Widget".to_vec(),
        quantity: 1,
        price_bits: (1.0f64).to_bits(),
        created_at: T0,
        updated_at: None,
    };
    let bytes = encode_item(&item);
    assert_ne!(bytes, item.name);
    assert_eq!(bytes.len(), 45 + item.name.len());
    assert_eq!(&bytes[45..], b"Widget");
    assert_eq!(bytes[0], 3);
}

#[test]
fn malformed_bytes_do_not_decode() {
    assert!(decode_item(&vec![]).is_none());
    assert!(decode_item(&vec![0u8; 44]).is_none());
    let item = InventoryItem {
        id: 1,
        name: b"W".to_vec(),
        quantity: 1,
        price_bits: (1.0f64).to_bits(),
        created_at: T0,
        updated_at: None,
    };
    let mut bad_tag = encode_item(&item);
    bad_tag[28] = 2;
    assert!(decode_item(&bad_tag).is_none());
    let mut bad_len = encode_item(&item);
    bad_len[37] = 9;
    assert!(decode_item(&bad_len).is_none());
}

#[test]
fn open_on_fresh_memory_is_empty() {
    let inv = Inventory::open();
    assert!(inv.list_items().is_empty());
    assert_eq!(inv.get_item(1).unwrap_err(), Error::NotFound { id: 1 });
}
