//! The calls that put values into their text form and back. Nothing here is
//! proved: each contract says what the called code does, and the rest of the
//! library is proved from these contracts.

use crate::account::{
    assets_wf, digest_views, slot_indices, slot_values, slots_wf, word_views, StorageSlot,
};
use crate::digest::{root_list_text, root_of_text, root_text, Digest};
use crate::text::{assets_text, is_asset, slots_text};
use miden_crypto::Word;
use miden_objects::assets::Asset;
use miden_objects::Digest as RpoDigest;
use miden_objects::Felt;
use std::collections::BTreeMap;
use vstd::prelude::*;

verus! {

/// Calls `serde_json::to_string` on the `RpoDigest` of the root's elements.
/// That type serialises as the string of its `to_hex`: `0x` and the
/// thirty-two bytes of the elements, each element least significant byte
/// first, each byte as two lower-case digits. The text is that string
/// between double quotes; nothing in it needs an escape. The call writes
/// into memory and the type always serialises, so it does not fail.
#[verifier::external_body]
pub(crate) fn root_to_json(root: &Digest) -> (text: Result<String, serde_json::Error>)
    requires
        root.wf(),
    ensures
        text is Ok,
        text matches Ok(s) ==> s@ == root_text(root@),
{
    serde_json::to_string(&RpoDigest::new(root.elements.map(Felt::new)))
}

/// Calls `serde_json::from_str` for an `RpoDigest`. That type deserialises
/// from a borrowed string, so the text must be one string without escapes,
/// with only spaces, tabs and line ends around it; the string is then parsed
/// by `hex_to_bytes` (sixty-six characters, `0x`, digits of either case) and
/// each of the four numbers must be below the field's order.
#[verifier::external_body]
pub(crate) fn root_from_json(text: &str) -> (root: Result<Digest, serde_json::Error>)
    ensures
        root matches Ok(d) ==> d.wf() && root_of_text(text@) == Some(d@),
        root is Err ==> root_of_text(text@) is None,
{
    serde_json::from_str::<RpoDigest>(text).map(|d| Digest { elements: d.into() })
}

/// Calls `serde_json::to_string` on a vector of `RpoDigest`. A sequence is
/// written as its items' texts in order, between square brackets, with a
/// comma and no space between neighbours. The call writes into memory and
/// the items always serialise, so it does not fail.
#[verifier::external_body]
pub(crate) fn roots_to_json(roots: &Vec<Digest>) -> (text: Result<String, serde_json::Error>)
    requires
        forall|i: int| 0 <= i < roots@.len() ==> (#[trigger] roots@[i]).wf(),
    ensures
        text is Ok,
        text matches Ok(s) ==> s@ == root_list_text(digest_views(roots@)),
{
    let roots: Vec<RpoDigest> =
        roots.iter().map(|d| RpoDigest::new(d.elements.map(Felt::new))).collect();
    serde_json::to_string(&roots)
}

/// Calls `serde_json::to_string` on a `BTreeMap` from slot index to word.
/// A map is written as its entries by rising key between braces, with a
/// comma and no space between neighbours; an entry is the key in decimal
/// between double quotes, a colon, and the value; a word is written as its
/// four elements in decimal between square brackets, with commas between
/// them. The call writes into memory, an integer key is written as a string,
/// and the values always serialise, so it does not fail.
#[verifier::external_body]
pub(crate) fn slots_to_json(slots: &Vec<StorageSlot>) -> (text: Result<String, serde_json::Error>)
    requires
        slots_wf(slots@),
    ensures
        text is Ok,
        text matches Ok(s) ==> s@ == slots_text(slot_indices(slots@), slot_values(slots@)),
{
    let slots: BTreeMap<u64, Word> =
        slots.iter().map(|slot| (slot.index, slot.value.map(Felt::new))).collect();
    serde_json::to_string(&slots)
}

/// Turns each word into an `Asset` with `Asset::try_from` and calls
/// `serde_json::to_string` on the vector of them; where a word is refused,
/// what `Asset::try_from` said is handed on as the encoder's error.
/// `Asset::try_from` goes by the high bit of the last element. Set, the word
/// is a fungible asset: the two middle elements must be zero, the last
/// element must have at least five bits set and `10` as its two highest, and
/// the first element, the amount, must be below 2^63. Clear, it is a
/// non-fungible asset, which holds the word as it is: the second element
/// must have at least five bits set and `11` as its two highest. An asset is
/// written as an object of one entry, named after its kind: for a fungible
/// one an object of `faucet_id` (the last element) and `amount`, both in
/// decimal; for a non-fungible one the word. The list is written between
/// square brackets, with commas between the assets. The call writes into
/// memory and assets always serialise, so it fails for a refused word only.
#[verifier::external_body]
pub(crate) fn assets_to_json(assets: &Vec<[u64; 4]>) -> (text: Result<String, serde_json::Error>)
    requires
        assets_wf(assets@),
    ensures
        text is Ok <==> forall|i: int| 0 <= i < assets@.len() ==> is_asset(#[trigger] assets@[i]@),
        text matches Ok(s) ==> s@ == assets_text(word_views(assets@)),
{
    let assets = assets
        .iter()
        .map(|word| Asset::try_from(word.map(Felt::new)))
        .collect::<Result<Vec<Asset>, _>>()
        .map_err(<serde_json::Error as serde::ser::Error>::custom)?;
    serde_json::to_string(&assets)
}

} // verus!
