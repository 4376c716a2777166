//! Follows a blockchain's finalized and pending blocks and hands their events to an index.
//!
//! The library holds the decisions: which storage entries to read, how runtime metadata
//! becomes an event catalogue, which blocks to process, and when a pending block counts as
//! final. Talking to the chain and to the index is left to the caller.

pub mod client;
pub mod event_arg;
pub mod finalize;
pub mod handle;
pub mod harvester;
pub mod hashing;
pub mod indexer;
pub mod metadata;
pub mod range;
pub mod text;

pub use client::InProcess;

use vstd::prelude::*;

use crate::hashing::{blake2_128, blake2_128_of, twox_128, twox_128_of};

verus! {

/// The raw key of an entry in a chain's storage.
#[derive(Debug, PartialEq, Eq, PartialOrd, Ord, Hash)]
pub struct StorageKey(pub Vec<u8>);

impl Clone for StorageKey {
    fn clone(&self) -> (copy: Self)
        ensures
            copy@ == self@,
            copy.0@ == self.0@,
    {
        StorageKey(self.0.clone())
    }
}

impl View for StorageKey {
    type V = Seq<u8>;

    open spec fn view(&self) -> Seq<u8> {
        self.0@
    }
}

/// The key under which `storage` of `module` is kept.
pub open spec fn storage_key(module: Seq<u8>, storage: Seq<u8>) -> Seq<u8> {
    twox_128_of(module) + twox_128_of(storage)
}

/// `head` followed by `tail`.
fn join_bytes(head: &[u8], tail: &[u8]) -> (joined: Vec<u8>)
    ensures
        joined@ == head@ + tail@,
{
    let mut joined: Vec<u8> = Vec::new();
    joined.extend_from_slice(head);
    joined.extend_from_slice(tail);
    proof {
        assert(joined@ =~= head@ + tail@);
    }
    joined
}

/// The key of a storage item.
pub fn storage_key_at(module: &[u8], storage: &[u8]) -> (key: StorageKey)
    ensures
        key@ == storage_key(module@, storage@),
        key@.len() == 32,
        key.0@ == key@,
        key.0@.subrange(0, 16) == twox_128_of(module@),
        key.0@.subrange(16, 32) == twox_128_of(storage@),
{
    let module_hash = twox_128(module);
    let storage_hash = twox_128(storage);
    let key = StorageKey(join_bytes(&module_hash, &storage_hash));
    proof {
        assert(key@.subrange(0, 16) =~= module_hash@);
        assert(key@.subrange(16, 32) =~= storage_hash@);
    }
    key
}

/// The key of one entry of a storage map. The caller hashes the entry's own key first, with
/// the hasher that the map uses.
pub fn storage_key_with_hashed(module: &[u8], storage: &[u8], key_hashed: &[u8]) -> (key: StorageKey)
    ensures
        key@ == storage_key(module@, storage@) + key_hashed@,
        key@.len() == 32 + key_hashed@.len(),
        key.0@ == key@,
        key.0@.subrange(0, 16) == twox_128_of(module@),
        key.0@.subrange(16, 32) == twox_128_of(storage@),
        key@.skip(32) == key_hashed@,
{
    let prefix = storage_key_at(module, storage);
    let key = StorageKey(join_bytes(&prefix.0, key_hashed));
    proof {
        assert(key@.skip(32) =~= key_hashed@);
        assert(key@.subrange(0, 16) =~= prefix@.subrange(0, 16));
        assert(key@.subrange(16, 32) =~= prefix@.subrange(16, 32));
    }
    key
}

/// The 128-bit BLAKE2 hash of `x`, followed by `x` itself, which can be read back from there.
pub fn blake2_128_concat(x: &[u8]) -> (joined: Vec<u8>)
    ensures
        joined@ == blake2_128_of(x@) + x@,
        joined@.len() == 16 + x@.len(),
        joined@.subrange(0, 16) == blake2_128_of(x@),
        joined@.skip(16) == x@,
{
    let hash = blake2_128(x);
    let joined = join_bytes(&hash, x);
    proof {
        assert(joined@.subrange(0, 16) =~= hash@);
        assert(joined@.skip(16) =~= x@);
    }
    joined
}

/// The key of a map's entry extends the key of the map.
pub proof fn law_entry_key_extends_item_key(module: Seq<u8>, storage: Seq<u8>, key_hashed: Seq<u8>)
    ensures
        storage_key(module, storage).is_prefix_of(storage_key(module, storage) + key_hashed),
{
}

/// Two entries of one map have one key only if their hashed keys are the same.
pub proof fn law_entry_keys_are_distinct(
    module: Seq<u8>,
    storage: Seq<u8>,
    first: Seq<u8>,
    second: Seq<u8>,
)
    requires
        storage_key(module, storage) + first == storage_key(module, storage) + second,
    ensures
        first == second,
{
    let item = storage_key(module, storage);
    assert(first =~= (item + first).skip(item.len() as int));
    assert(second =~= (item + second).skip(item.len() as int));
}

/// A storage item's key is the hash of its module's name followed by the hash of its own.
pub proof fn law_item_key_is_two_hashes(module: Seq<u8>, storage: Seq<u8>)
    ensures
        storage_key(module, storage) == twox_128_of(module) + twox_128_of(storage),
        storage_key(module, storage).len() == twox_128_of(module).len() + twox_128_of(
            storage,
        ).len(),
{
}

} // verus!
