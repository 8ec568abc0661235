//! The inventory record, the creation/update payload, input validation, and
//! the error taxonomy of the service.

use vstd::prelude::*;

verus! {

/// Number of bytes in the fixed-width prefix of an encoded record
/// (all fields except the name, whose bytes follow the prefix).
pub const RECORD_PREFIX_BYTES: usize = 45;

/// Upper bound on the byte length of an encoded record; a record that would
/// exceed it is rejected rather than truncated.
pub const MAX_RECORD_BYTES: usize = 1024;

/// Smallest bit pattern (IEEE 754 binary64, interpreted as `u64`) of a price
/// that is strictly greater than zero: the least positive subnormal.
pub const MIN_POSITIVE_PRICE_BITS: u64 = 0x1;

/// Largest bit pattern (IEEE 754 binary64, interpreted as `u64`) of a price
/// that is strictly greater than zero: positive infinity. Every pattern
/// above it is a NaN or carries the sign bit.
pub const MAX_POSITIVE_PRICE_BITS: u64 = 0x7FF0_0000_0000_0000;

/// True exactly when `bits`, read as the IEEE 754 binary64 bit pattern of the
/// price, denotes a value strictly greater than zero. The patterns in
/// `[MIN_POSITIVE_PRICE_BITS, MAX_POSITIVE_PRICE_BITS]` are precisely the
/// positive subnormals, the positive normals, and positive infinity; the
/// patterns outside it are the two zeros, every negative value, and the NaNs,
/// none of which compares strictly greater than zero.
pub open spec fn price_bits_positive(bits: u64) -> bool {
    MIN_POSITIVE_PRICE_BITS <= bits && bits <= MAX_POSITIVE_PRICE_BITS
}

/// The payload field that failed validation.
#[derive(Clone, Copy, Debug, PartialEq, Eq, Structural)]
pub enum PayloadField {
    Name,
    Quantity,
    Price,
}

/// The reason a storage-level failure was signalled.
#[derive(Clone, Copy, Debug, PartialEq, Eq, Structural)]
pub enum StorageFault {
    /// The identifier counter has reached its maximum: allocating one more
    /// identifier would wrap around and break uniqueness.
    CounterExhausted,
    /// The record would encode to more than `MAX_RECORD_BYTES` bytes.
    RecordTooLarge,
}

/// The closed error taxonomy of the service. Every failing operation returns
/// one of these; each carries the context a caller needs (the offending id,
/// the failed field, or the storage fault).
#[derive(Clone, Copy, Debug, PartialEq, Eq, Structural)]
pub enum Error {
    NotFound { id: u64 },
    InvalidInput { field: PayloadField },
    StorageFailure { fault: StorageFault },
}

/// An inventory record. The name is held as its UTF-8 bytes and the price as
/// the bit pattern of an IEEE 754 binary64 value; the transport layer around
/// the library converts from and to `String` and `f64`.
#[derive(Clone, Debug, PartialEq)]
pub struct InventoryItem {
    pub id: u64,
    pub name: Vec<u8>,
    pub quantity: u32,
    pub price_bits: u64,
    pub created_at: u64,
    pub updated_at: Option<u64>,
}

/// The mathematical model of an `InventoryItem`.
#[verifier::ext_equal]
pub struct ItemModel {
    pub id: u64,
    pub name: Seq<u8>,
    pub quantity: u32,
    pub price_bits: u64,
    pub created_at: u64,
    pub updated_at: Option<u64>,
}

impl View for InventoryItem {
    type V = ItemModel;

    open spec fn view(&self) -> ItemModel {
        ItemModel {
            id: self.id,
            name: self.name@,
            quantity: self.quantity,
            price_bits: self.price_bits,
            created_at: self.created_at,
            updated_at: self.updated_at,
        }
    }
}

/// The input to `add_item` and `update_item`: everything of a record that the
/// caller chooses (the identifier and the timestamps are the service's).
#[derive(Clone, Debug, PartialEq)]
pub struct InventoryPayload {
    pub name: Vec<u8>,
    pub quantity: u32,
    pub price_bits: u64,
}

/// The mathematical model of an `InventoryPayload`.
#[verifier::ext_equal]
pub struct PayloadModel {
    pub name: Seq<u8>,
    pub quantity: u32,
    pub price_bits: u64,
}

impl View for InventoryPayload {
    type V = PayloadModel;

    open spec fn view(&self) -> PayloadModel {
        PayloadModel { name: self.name@, quantity: self.quantity, price_bits: self.price_bits }
    }
}

/// The first field of `p` that fails validation, in the order the fields are
/// checked: the name must be non-empty, the quantity strictly positive, and
/// the price strictly greater than zero. `None` when the payload is valid.
pub open spec fn payload_error(p: PayloadModel) -> Option<PayloadField> {
    if p.name.len() == 0 {
        Some(PayloadField::Name)
    } else if p.quantity == 0 {
        Some(PayloadField::Quantity)
    } else if !price_bits_positive(p.price_bits) {
        Some(PayloadField::Price)
    } else {
        None
    }
}

/// A payload passes validation exactly when no field fails it.
pub open spec fn payload_valid(p: PayloadModel) -> bool {
    payload_error(p) is None
}

/// Checks a payload, reporting the first failing field, exactly as
/// `payload_error` describes.
pub fn validate_payload(p: &InventoryPayload) -> (r: Result<(), Error>)
    ensures
        match r {
            Ok(_) => payload_valid(p@),
            Err(e) => {
                &&& payload_error(p@) is Some
                &&& e == (Error::InvalidInput { field: payload_error(p@).unwrap() })
            },
        },
{
    if p.name.len() == 0 {
        Err(Error::InvalidInput { field: PayloadField::Name })
    } else if p.quantity == 0 {
        Err(Error::InvalidInput { field: PayloadField::Quantity })
    } else if p.price_bits < MIN_POSITIVE_PRICE_BITS || p.price_bits > MAX_POSITIVE_PRICE_BITS {
        Err(Error::InvalidInput { field: PayloadField::Price })
    } else {
        Ok(())
    }
}

/// A record the store may hold: its identifier is allocated (non-zero), its
/// payload fields pass validation, and its encoding fits the record bound.
pub open spec fn item_wf(it: ItemModel) -> bool {
    &&& it.id >= 1
    &&& payload_valid(
        PayloadModel { name: it.name, quantity: it.quantity, price_bits: it.price_bits },
    )
    &&& RECORD_PREFIX_BYTES + it.name.len() <= MAX_RECORD_BYTES
}

} // verus!
