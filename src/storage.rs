//! The balance mapping as it lives in contract storage: near_sdk's
//! `UnorderedMap`, keyed by account identifier. Every call on it reads or
//! writes the host's storage, which the host provides to each contract call
//! (near_sdk panics where no host is set up).

use vstd::prelude::*;
use near_sdk::collections::UnorderedMap;

verus! {

#[verifier::external_type_specification]
#[verifier::external_body]
#[verifier::reject_recursive_types(K)]
#[verifier::reject_recursive_types(V)]
pub struct ExUnorderedMap<K, V>(UnorderedMap<K, V>);

/// What a balance map holds: for each account identifier that has an entry,
/// the balance stored under it.
pub uninterp spec fn stored_entries(m: UnorderedMap<String, u128>) -> Map<Seq<char>, u128>;

/// Relies on `UnorderedMap::new`: a map created under a storage prefix that
/// no other collection uses starts with no entries (its key and value vectors
/// start with length zero).
#[verifier::external_body]
pub(crate) fn new_map(prefix: Vec<u8>) -> (r: UnorderedMap<String, u128>)
    ensures
        stored_entries(r) =~= Map::empty(),
{
    UnorderedMap::new(prefix)
}

/// The entry stored under `key`, if there is one.
pub open spec fn entry_of(m: Map<Seq<char>, u128>, key: Seq<char>) -> Option<u128> {
    if m.contains_key(key) {
        Some(m[key])
    } else {
        None
    }
}

/// Relies on `UnorderedMap::get`: it returns the value stored under the key,
/// or `None` where the key has no entry (keys are told apart by their Borsh
/// encoding, which differs for different strings).
#[verifier::external_body]
pub(crate) fn map_get(m: &UnorderedMap<String, u128>, key: &String) -> (r: Option<u128>)
    ensures
        r == entry_of(stored_entries(*m), key@),
{
    m.get(key)
}

/// Relies on `UnorderedMap::insert`: afterwards the key holds `value`, every
/// other entry is kept, and the previous value under the key is returned.
#[verifier::external_body]
pub(crate) fn map_insert(m: &mut UnorderedMap<String, u128>, key: &String, value: u128) -> (r:
    Option<u128>)
    ensures
        stored_entries(*final(m)) == stored_entries(*old(m)).insert(key@, value),
        r == entry_of(stored_entries(*old(m)), key@),
{
    m.insert(key, &value)
}

/// Relies on `UnorderedMap::remove`: afterwards the key has no entry, every
/// other entry is kept, and the value that was under the key is returned.
#[verifier::external_body]
pub(crate) fn map_remove(m: &mut UnorderedMap<String, u128>, key: &String) -> (r: Option<u128>)
    ensures
        stored_entries(*final(m)) == stored_entries(*old(m)).remove(key@),
        r == entry_of(stored_entries(*old(m)), key@),
{
    m.remove(key)
}

} // verus!
