//! Conversions between unsigned 64-bit values and the signed 64-bit integers
//! that an integer column can hold.

use vstd::prelude::*;

verus! {

/// The signed integer that stands for `id` in an integer column: the value
/// with the same 64-bit two's-complement pattern.
pub open spec fn stored_id(id: u64) -> i64 {
    if id <= i64::MAX {
        id as i64
    } else {
        (id - 0x1_0000_0000_0000_0000) as i64
    }
}

/// The identifier that a stored integer stands for: the inverse of
/// [`stored_id`].
pub open spec fn loaded_id(stored: i64) -> u64 {
    if stored >= 0 {
        stored as u64
    } else {
        (stored + 0x1_0000_0000_0000_0000) as u64
    }
}

/// Reinterprets an identifier as the signed integer with the same bits.
pub fn id_to_stored(id: u64) -> (stored: i64)
    ensures
        stored == stored_id(id),
{
    assert(id as i64 == stored_id(id)) by (bit_vector);
    id as i64
}

/// Reinterprets a stored integer as the identifier with the same bits.
pub fn id_from_stored(stored: i64) -> (id: u64)
    ensures
        id == loaded_id(stored),
{
    assert(stored as u64 == loaded_id(stored)) by (bit_vector);
    stored as u64
}

/// Every identifier, the high bit set or not, comes back unchanged from its
/// stored form.
pub proof fn lemma_id_round_trip(id: u64)
    ensures
        loaded_id(stored_id(id)) == id,
{
}

/// Every stored integer comes back unchanged from the identifier it stands
/// for, so no two identifiers share a stored form and none is left out.
pub proof fn lemma_stored_id_round_trip(stored: i64)
    ensures
        stored_id(loaded_id(stored)) == stored,
{
}

/// The stored form of a nonce: the signed integer with the same bits, which
/// is the same number for every nonce that a signed integer can hold.
pub open spec fn stored_nonce(nonce: u64) -> i64 {
    stored_id(nonce)
}

/// The nonce that a stored integer stands for: the inverse of
/// [`stored_nonce`].
pub open spec fn loaded_nonce(stored: i64) -> u64 {
    loaded_id(stored)
}

/// Reinterprets a nonce as the signed integer with the same bits.
pub fn nonce_to_stored(nonce: u64) -> (stored: i64)
    ensures
        stored == stored_nonce(nonce),
        nonce <= i64::MAX ==> stored == nonce,
{
    id_to_stored(nonce)
}

/// Reinterprets a stored integer as the nonce with the same bits.
pub fn nonce_from_stored(stored: i64) -> (nonce: u64)
    ensures
        nonce == loaded_nonce(stored),
        stored >= 0 ==> nonce == stored,
{
    id_from_stored(stored)
}

/// Every nonce, the high bit set or not, comes back unchanged from its
/// stored form.
pub proof fn lemma_nonce_round_trip(nonce: u64)
    ensures
        loaded_nonce(stored_nonce(nonce)) == nonce,
{
}

} // verus!
