use harvester::indexer::Indexer;
use harvester::{blake2_128_concat, storage_key_at, storage_key_with_hashed, StorageKey};

fn hex(bytes: &[u8]) -> String {
    let mut text = String::new();
    for byte in bytes {
        text.push_str(&format!("{:02x}", byte));
    }
    text
}

#[test]
fn events_of_system_have_the_well_known_key() {
    assert_eq!(
        hex(&storage_key_at(b"System", b"Events").0),
        "26aa394eea5630e07c48ae0c9558cef780d41e5e16056765bc8461851072c9d7"
    );
}

#[test]
fn accounts_of_system_have_the_well_known_key() {
    assert_eq!(
        hex(&storage_key_at(b"System", b"Account").0),
        "26aa394eea5630e07c48ae0c9558cef7b99d880ec681799c0cf30e8886371da9"
    );
}

#[test]
fn names_are_hashed_even_when_empty() {
    assert_eq!(
        hex(&storage_key_at(b"", b"").0),
        "99e9d85137db46ef4bbea33613baafd599e9d85137db46ef4bbea33613baafd5"
    );
}

#[test]
fn entry_key_extends_the_key_of_its_map() {
    let item = storage_key_at(b"System", b"Account");
    let entry = storage_key_with_hashed(b"System", b"Account", &[1, 2, 3]);
    assert_eq!(entry.0.len(), 35);
    assert_eq!(&entry.0[..32], &item.0[..]);
    assert_eq!(&entry.0[32..], &[1, 2, 3]);
}

#[test]
fn entry_keys_tell_entries_apart() {
    let first = storage_key_with_hashed(b"System", b"Account", &[1]);
    let second = storage_key_with_hashed(b"System", b"Account", &[2]);
    assert_ne!(first.0, second.0);
    assert_eq!(
        storage_key_with_hashed(b"System", b"Account", &[]).0,
        storage_key_at(b"System", b"Account").0
    );
}

#[test]
fn blake2_concat_ends_in_its_argument() {
    let joined = blake2_128_concat(b"abc");
    assert_eq!(hex(&joined), "cf4ab791c62b8d2b2109c90275287816616263");
    assert_eq!(joined.len(), 19);
    assert_eq!(&joined[16..], b"abc");
}

#[test]
fn blake2_concat_of_nothing_is_a_hash() {
    assert_eq!(hex(&blake2_128_concat(b"")), "cae66941d9efbd404e4d88758ea67670");
}

#[test]
fn cloned_key_is_the_same_key() {
    let key = StorageKey(vec![9, 8, 7]);
    assert_eq!(key.clone().0, vec![9, 8, 7]);
}

#[test]
fn index_reads_the_events_of_system() {
    let index: Indexer<u8, &str, (), (), (), (), ()> = Indexer::new("store", 7);
    assert_eq!(index.events_store_key().0, storage_key_at(b"System", b"Events").0);
    assert_eq!(*index.store(), "store");
    assert_eq!(*index.decoder(), 7);
}

#[test]
fn keys_are_ordered_by_their_bytes() {
    assert_eq!(StorageKey(vec![1, 2]), StorageKey(vec![1, 2]));
    assert_ne!(StorageKey(vec![1, 2]), StorageKey(vec![1]));
    assert!(StorageKey(vec![1, 2]) < StorageKey(vec![2]));
    assert!(StorageKey(vec![1]) < StorageKey(vec![1, 0]));
    let mut seen = std::collections::HashSet::new();
    assert!(seen.insert(StorageKey(vec![7])));
    assert!(!seen.insert(StorageKey(vec![7])));
}
