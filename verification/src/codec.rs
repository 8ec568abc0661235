//! The binary record format: a little-endian, length-prefixed-name encoding
//! of an inventory record, with decoding proved to invert encoding.
//!
//! Layout of an encoded record (offsets in bytes):
//! `[0, 8)` id, `[8, 12)` quantity, `[12, 20)` price bits, `[20, 28)` creation
//! timestamp, `[28]` update tag (0 = never updated, 1 = updated), `[29, 37)`
//! update timestamp (zero when the tag is 0), `[37, 45)` name length,
//! `[45, ..)` the name's bytes.

use vstd::prelude::*;
use vstd::assert_seqs_equal;

use crate::item::item_wf;
use crate::item::InventoryItem;
use crate::item::ItemModel;
use crate::item::RECORD_PREFIX_BYTES;

verus! {

/// The eight bytes of `v`, least significant first.
pub open spec fn u64_le_bytes(v: u64) -> Seq<u8> {
    seq![
        (v & 0xff) as u8,
        ((v >> 8) & 0xff) as u8,
        ((v >> 16) & 0xff) as u8,
        ((v >> 24) & 0xff) as u8,
        ((v >> 32) & 0xff) as u8,
        ((v >> 40) & 0xff) as u8,
        ((v >> 48) & 0xff) as u8,
        ((v >> 56) & 0xff) as u8,
    ]
}

/// The four bytes of `v`, least significant first.
pub open spec fn u32_le_bytes(v: u32) -> Seq<u8> {
    seq![
        (v & 0xff) as u8,
        ((v >> 8) & 0xff) as u8,
        ((v >> 16) & 0xff) as u8,
        ((v >> 24) & 0xff) as u8,
    ]
}

/// The value whose little-endian bytes are `b`.
pub open spec fn u64_of_le(b: Seq<u8>) -> u64
    recommends
        b.len() == 8,
{
    (b[0] as u64) | ((b[1] as u64) << 8) | ((b[2] as u64) << 16) | ((b[3] as u64) << 24) | ((
    b[4] as u64) << 32) | ((b[5] as u64) << 40) | ((b[6] as u64) << 48) | ((b[7] as u64) << 56)
}

/// The value whose little-endian bytes are `b`.
pub open spec fn u32_of_le(b: Seq<u8>) -> u32
    recommends
        b.len() == 4,
{
    (b[0] as u32) | ((b[1] as u32) << 8) | ((b[2] as u32) << 16) | ((b[3] as u32) << 24)
}

pub proof fn lemma_u64_le_roundtrip(v: u64)
    ensures
        u64_of_le(u64_le_bytes(v)) == v,
{
    assert(((v & 0xff) as u8 as u64) | (((v >> 8) & 0xff) as u8 as u64) << 8 | (((v >> 16)
        & 0xff) as u8 as u64) << 16 | (((v >> 24) & 0xff) as u8 as u64) << 24 | (((v >> 32)
        & 0xff) as u8 as u64) << 32 | (((v >> 40) & 0xff) as u8 as u64) << 40 | (((v >> 48)
        & 0xff) as u8 as u64) << 48 | (((v >> 56) & 0xff) as u8 as u64) << 56 == v)
        by (bit_vector);
}

pub proof fn lemma_u32_le_roundtrip(v: u32)
    ensures
        u32_of_le(u32_le_bytes(v)) == v,
{
    assert(((v & 0xff) as u8 as u32) | (((v >> 8) & 0xff) as u8 as u32) << 8 | (((v >> 16)
        & 0xff) as u8 as u32) << 16 | (((v >> 24) & 0xff) as u8 as u32) << 24 == v)
        by (bit_vector);
}

/// The tag byte that says whether a record has ever been updated.
pub open spec fn updated_tag(u: Option<u64>) -> u8 {
    if u is Some {
        1u8
    } else {
        0u8
    }
}

/// The update timestamp written after the tag; zero stands in when there is
/// none (the tag keeps the two cases apart).
pub open spec fn updated_value(u: Option<u64>) -> u64 {
    match u {
        Some(t) => t,
        None => 0u64,
    }
}

/// The encoded form of a record.
pub open spec fn spec_encode(it: ItemModel) -> Seq<u8> {
    u64_le_bytes(it.id) + u32_le_bytes(it.quantity) + u64_le_bytes(it.price_bits) + u64_le_bytes(
        it.created_at,
    ) + seq![updated_tag(it.updated_at)] + u64_le_bytes(updated_value(it.updated_at))
        + u64_le_bytes(it.name.len() as u64) + it.name
}

/// The record encoded in `b`, or `None` when `b` is not a well-formed
/// encoding: too short, an unknown update tag, or a length field that does
/// not match the actual length.
pub open spec fn spec_decode(b: Seq<u8>) -> Option<ItemModel> {
    if b.len() < RECORD_PREFIX_BYTES {
        None
    } else {
        let tag = b[28];
        let nlen = u64_of_le(b.subrange(37, 45));
        if tag != 0 && tag != 1 {
            None
        } else if b.len() != RECORD_PREFIX_BYTES + nlen {
            None
        } else {
            Some(
                ItemModel {
                    id: u64_of_le(b.subrange(0, 8)),
                    name: b.subrange(45, b.len() as int),
                    quantity: u32_of_le(b.subrange(8, 12)),
                    price_bits: u64_of_le(b.subrange(12, 20)),
                    created_at: u64_of_le(b.subrange(20, 28)),
                    updated_at: if tag == 1 {
                        Some(u64_of_le(b.subrange(29, 37)))
                    } else {
                        None
                    },
                },
            )
        }
    }
}

/// Consistency of a persisted store state: every stored byte record is the
/// encoding of a well-formed item keyed by its own identifier, and every
/// stored identifier was allocated — it lies between one and the counter.
/// The service establishes this on an empty state and preserves it across
/// every operation, so it holds of whatever state was persisted.
pub open spec fn records_consistent(records: Map<u64, Seq<u8>>, counter: u64) -> bool {
    forall|k: u64|
        #[trigger] records.contains_key(k) ==> {
            let d = spec_decode(records[k]);
            &&& d is Some
            &&& d.unwrap().id == k
            &&& item_wf(d.unwrap())
            &&& records[k] == spec_encode(d.unwrap())
            &&& 1 <= k <= counter
        }
}

/// Round trip: decoding the encoding of any record whose name's length fits
/// the length field reproduces the record exactly, field for field.
pub proof fn lemma_encode_decode(it: ItemModel)
    requires
        it.name.len() <= u64::MAX,
    ensures
        spec_decode(spec_encode(it)) == Some(it),
{
    let e = spec_encode(it);
    assert(e.len() == RECORD_PREFIX_BYTES + it.name.len());
    assert_seqs_equal!(e.subrange(0, 8) == u64_le_bytes(it.id));
    assert_seqs_equal!(e.subrange(8, 12) == u32_le_bytes(it.quantity));
    assert_seqs_equal!(e.subrange(12, 20) == u64_le_bytes(it.price_bits));
    assert_seqs_equal!(e.subrange(20, 28) == u64_le_bytes(it.created_at));
    assert(e[28] == updated_tag(it.updated_at));
    assert_seqs_equal!(e.subrange(29, 37) == u64_le_bytes(updated_value(it.updated_at)));
    assert_seqs_equal!(e.subrange(37, 45) == u64_le_bytes(it.name.len() as u64));
    assert_seqs_equal!(e.subrange(45, e.len() as int) == it.name);
    lemma_u64_le_roundtrip(it.id);
    lemma_u32_le_roundtrip(it.quantity);
    lemma_u64_le_roundtrip(it.price_bits);
    lemma_u64_le_roundtrip(it.created_at);
    lemma_u64_le_roundtrip(updated_value(it.updated_at));
    lemma_u64_le_roundtrip(it.name.len() as u64);
    let d = spec_decode(e);
    assert(d is Some);
    assert(d.unwrap() =~= it);
}

/// Appends the eight little-endian bytes of `v` to `out`.
fn push_u64_le(out: &mut Vec<u8>, v: u64)
    ensures
        final(out)@ == old(out)@ + u64_le_bytes(v),
{
    out.push((v & 0xff) as u8);
    out.push(((v >> 8) & 0xff) as u8);
    out.push(((v >> 16) & 0xff) as u8);
    out.push(((v >> 24) & 0xff) as u8);
    out.push(((v >> 32) & 0xff) as u8);
    out.push(((v >> 40) & 0xff) as u8);
    out.push(((v >> 48) & 0xff) as u8);
    out.push(((v >> 56) & 0xff) as u8);
    assert(out@ =~= old(out)@ + u64_le_bytes(v));
}

/// Appends the four little-endian bytes of `v` to `out`.
fn push_u32_le(out: &mut Vec<u8>, v: u32)
    ensures
        final(out)@ == old(out)@ + u32_le_bytes(v),
{
    out.push((v & 0xff) as u8);
    out.push(((v >> 8) & 0xff) as u8);
    out.push(((v >> 16) & 0xff) as u8);
    out.push(((v >> 24) & 0xff) as u8);
    assert(out@ =~= old(out)@ + u32_le_bytes(v));
}

/// Reads the `u64` whose little-endian bytes sit at `[off, off + 8)` in `b`.
fn read_u64_le(b: &Vec<u8>, off: usize) -> (r: u64)
    requires
        off + 8 <= b@.len(),
    ensures
        r == u64_of_le(b@.subrange(off as int, off as int + 8)),
{
    let _n = b.len();
    let r = (b[off] as u64) | ((b[off + 1] as u64) << 8) | ((b[off + 2] as u64) << 16) | ((b[off
        + 3] as u64) << 24) | ((b[off + 4] as u64) << 32) | ((b[off + 5] as u64) << 40) | ((b[off
        + 6] as u64) << 48) | ((b[off + 7] as u64) << 56);
    proof {
        let s = b@.subrange(off as int, off as int + 8);
        assert(forall|i: int| 0 <= i < 8 ==> s[i] == b@[off + i]);
    }
    r
}

/// Reads the `u32` whose little-endian bytes sit at `[off, off + 4)` in `b`.
fn read_u32_le(b: &Vec<u8>, off: usize) -> (r: u32)
    requires
        off + 4 <= b@.len(),
    ensures
        r == u32_of_le(b@.subrange(off as int, off as int + 4)),
{
    let _n = b.len();
    let r = (b[off] as u32) | ((b[off + 1] as u32) << 8) | ((b[off + 2] as u32) << 16) | ((b[off
        + 3] as u32) << 24);
    proof {
        let s = b@.subrange(off as int, off as int + 4);
        assert(forall|i: int| 0 <= i < 4 ==> s[i] == b@[off + i]);
    }
    r
}

/// Encodes a record into the byte form that `spec_encode` describes.
pub fn encode_item(item: &InventoryItem) -> (r: Vec<u8>)
    ensures
        r@ == spec_encode(item@),
        r@.len() == RECORD_PREFIX_BYTES + item@.name.len(),
{
    let mut out: Vec<u8> = Vec::new();
    push_u64_le(&mut out, item.id);
    push_u32_le(&mut out, item.quantity);
    push_u64_le(&mut out, item.price_bits);
    push_u64_le(&mut out, item.created_at);
    match item.updated_at {
        Some(t) => {
            out.push(1u8);
            push_u64_le(&mut out, t);
        },
        None => {
            out.push(0u8);
            push_u64_le(&mut out, 0u64);
        },
    }
    push_u64_le(&mut out, item.name.len() as u64);
    let ghost prefix = out@;
    let mut i: usize = 0;
    while i < item.name.len()
        invariant
            i <= item.name.len(),
            out@ == prefix + item.name@.subrange(0, i as int),
        decreases item.name.len() - i,
    {
        out.push(item.name[i]);
        proof {
            assert(out@ =~= prefix + item.name@.subrange(0, i + 1));
        }
        i += 1;
    }
    proof {
        assert(item.name@.subrange(0, item.name@.len() as int) =~= item.name@);
        assert(seq![updated_tag(item@.updated_at)] =~= prefix.subrange(28, 29));
        assert(out@ =~= spec_encode(item@));
    }
    out
}

/// Decodes a record from its byte form, returning exactly what `spec_decode`
/// gives on those bytes.
pub fn decode_item(bytes: &Vec<u8>) -> (r: Option<InventoryItem>)
    ensures
        match r {
            Some(item) => spec_decode(bytes@) == Some(item@),
            None => spec_decode(bytes@) is None,
        },
{
    if bytes.len() < RECORD_PREFIX_BYTES {
        return None;
    }
    let id = read_u64_le(bytes, 0);
    let quantity = read_u32_le(bytes, 8);
    let price_bits = read_u64_le(bytes, 12);
    let created_at = read_u64_le(bytes, 20);
    let tag = bytes[28];
    let upd = read_u64_le(bytes, 29);
    let nlen = read_u64_le(bytes, 37);
    if tag > 1 {
        return None;
    }
    let body_len: usize = bytes.len() - RECORD_PREFIX_BYTES;
    if (body_len as u64) != nlen {
        return None;
    }
    let mut name: Vec<u8> = Vec::new();
    let mut i: usize = RECORD_PREFIX_BYTES;
    while i < bytes.len()
        invariant
            RECORD_PREFIX_BYTES <= i <= bytes@.len(),
            name@ == bytes@.subrange(RECORD_PREFIX_BYTES as int, i as int),
        decreases bytes@.len() - i,
    {
        let byte = bytes[i];
        name.push(byte);
        proof {
            assert(name@ =~= bytes@.subrange(RECORD_PREFIX_BYTES as int, i + 1));
        }
        i += 1;
    }
    let item = InventoryItem {
        id,
        name,
        quantity,
        price_bits,
        created_at,
        updated_at: if tag == 1 {
            Some(upd)
        } else {
            None
        },
    };
    proof {
        assert(spec_decode(bytes@) == Some(item@)) by {
            assert(spec_decode(bytes@).unwrap() =~= item@);
        }
    }
    Some(item)
}

} // verus!
